//! Tables, settings and engines to try things out on.

use vstd::prelude::*;
use vstd::string::StringExecFns;
use crate::auth::Credential;
use crate::auth::SecretString;
use crate::auth::StartupModel;
use crate::auth::StartupParams;
use crate::auth::TransportInfo;
use crate::auth::TransportKind;
use crate::engine;
use crate::engine::BuilderModel;
use crate::engine::Engine;
use crate::engine::EngineBuilder;
use crate::engine::EngineModel;
use crate::engine::SessionHandle;
use crate::engine::Store;
use crate::engine::StoreModel;
use crate::fault::DbError;
use crate::portal;
use crate::security::RuntimeConfig;
use crate::security::SecurityConfig;
use crate::security::SecurityProfile;
use crate::text;
use crate::txn;
use crate::txn::ManagerModel;

verus! {

/// Whether a text of statements was executed, and failed if `r` says so.
pub open spec fn ran(
    before: EngineModel,
    after: EngineModel,
    id: u64,
    sql: Seq<char>,
    r: Result<(), DbError>,
) -> bool {
    &&& after == engine::executed(before, id, sql).0
    &&& match (r, engine::executed(before, id, sql).1) {
        (Ok(_), Ok(_)) => true,
        (Err(e), Err(m)) => e@ == m,
        _ => false,
    }
}

fn run(engine: &mut Engine, session: &SessionHandle, sql: &str) -> (r: Result<(), DbError>)
    requires
        old(engine).wf(),
    ensures
        final(engine).wf(),
        ran(old(engine)@, final(engine)@, session.id, sql@, r),
{
    match engine.execute_sql(session, sql) {
        Ok(_) => Ok(()),
        Err(e) => Err(e),
    }
}

pub const SCHEMA_SQL: &'static str = "CREATE TABLE employees (id INT, name TEXT, dept TEXT, salary INT, active BOOLEAN); \
    INSERT INTO employees VALUES (1, 'alice', 'eng', 90000, true), (2, 'bob', 'eng', \
    85000, true), (3, 'carol', 'sales', 70000, false), (4, 'dave', 'sales', 75000, \
    true), (5, 'eve', 'hr', 60000, true), (6, 'frank', 'hr', 65000, false); \
    CREATE TABLE departments (dept TEXT, budget INT); \
    INSERT INTO departments VALUES ('eng', 500000), ('sales', 300000), ('hr', 200000)";

/// Creates the tables of employees and departments.
pub fn setup_schema(engine: &mut Engine, session: &SessionHandle) -> (r: Result<(), DbError>)
    requires
        old(engine).wf(),
    ensures
        final(engine).wf(),
        ran(old(engine)@, final(engine)@, session.id, SCHEMA_SQL@, r),
{
    run(engine, session, SCHEMA_SQL)
}

pub const JOIN_TABLES_SQL: &'static str = "CREATE TABLE users (id INT, name TEXT, dept_id INT); \
    INSERT INTO users VALUES (1, 'alice', 10), (2, 'bob', 20), (3, 'carol', 10), (4, \
    'dave', 30), (5, 'eve', NULL); \
    CREATE TABLE depts (id INT, dept_name TEXT); \
    INSERT INTO depts VALUES (10, 'engineering'), (20, 'sales'), (40, 'marketing')";

/// Creates a table of users and one of departments, some without a counterpart.
pub fn setup_join_tables(engine: &mut Engine, session: &SessionHandle) -> (r: Result<(), DbError>)
    requires
        old(engine).wf(),
    ensures
        final(engine).wf(),
        ran(old(engine)@, final(engine)@, session.id, JOIN_TABLES_SQL@, r),
{
    run(engine, session, JOIN_TABLES_SQL)
}

pub const SET_TABLES_SQL: &'static str = "CREATE TABLE t1 (id INT, name TEXT); \
    INSERT INTO t1 VALUES (1, 'alice'), (2, 'bob'), (3, 'carol'); \
    CREATE TABLE t2 (id INT, name TEXT); \
    INSERT INTO t2 VALUES (2, 'bob'), (3, 'carol'), (4, 'dave')";

/// Creates two tables that have two of their rows in common.
pub fn setup_tables(engine: &mut Engine, session: &SessionHandle) -> (r: Result<(), DbError>)
    requires
        old(engine).wf(),
    ensures
        final(engine).wf(),
        ran(old(engine)@, final(engine)@, session.id, SET_TABLES_SQL@, r),
{
    run(engine, session, SET_TABLES_SQL)
}

pub const USERS_AND_ADMINS_SQL: &'static str = "CREATE TABLE users (id INT, name TEXT); \
    INSERT INTO users VALUES (1, 'alice'), (2, 'bob'), (3, 'carol'); \
    CREATE TABLE admins (id INT, role TEXT); \
    INSERT INTO admins VALUES (1, 'superadmin'), (3, 'moderator')";

/// Creates a table of users and one of the administrators among them.
pub fn setup_users_and_admins(
    engine: &mut Engine,
    session: &SessionHandle,
) -> (r: Result<(), DbError>)
    requires
        old(engine).wf(),
    ensures
        final(engine).wf(),
        ran(old(engine)@, final(engine)@, session.id, USERS_AND_ADMINS_SQL@, r),
{
    run(engine, session, USERS_AND_ADMINS_SQL)
}

/// Whether two texts of statements were executed one after the other, the second
/// only if the first did not fail.
pub open spec fn ran_both(
    before: EngineModel,
    after: EngineModel,
    id: u64,
    first: Seq<char>,
    second: Seq<char>,
    r: Result<(), DbError>,
) -> bool {
    match engine::executed(before, id, first) {
        (e, Err(m)) => after == e && (r matches Err(x) && x@ == m),
        (e, Ok(_)) => ran(e, after, id, second, r),
    }
}

fn run_both(engine: &mut Engine, session: &SessionHandle, first: &str, second: &str) -> (r: Result<
    (),
    DbError,
>)
    requires
        old(engine).wf(),
    ensures
        final(engine).wf(),
        ran_both(old(engine)@, final(engine)@, session.id, first@, second@, r),
{
    match engine.execute_sql(session, first) {
        Ok(_) => {},
        Err(e) => {
            return Err(e);
        },
    }
    run(engine, session, second)
}

pub const PACIFIC_TIME_SQL: &'static str = "SET TimeZone TO 'PST8PDT'";

/// The statement that sets a date style.
pub open spec fn date_style_sql(style: Seq<char>) -> Seq<char> {
    "SET DateStyle TO '"@ + style + "'"@
}

/// Sets the time zone and a date style.
pub fn apply_date_session_settings(
    engine: &mut Engine,
    session: &SessionHandle,
    datestyle: &str,
) -> (r: Result<(), DbError>)
    requires
        old(engine).wf(),
    ensures
        final(engine).wf(),
        ran_both(
            old(engine)@,
            final(engine)@,
            session.id,
            PACIFIC_TIME_SQL@,
            date_style_sql(datestyle@),
            r,
        ),
{
    let mut sql: String = text::owned("SET DateStyle TO '");
    sql.append(datestyle);
    sql.append("'");
    assert(sql@ =~= date_style_sql(datestyle@));
    run_both(engine, session, PACIFIC_TIME_SQL, sql.as_str())
}

pub const POSTGRES_DATES_SQL: &'static str = "SET DateStyle TO 'Postgres, MDY'";

/// Sets the time zone and the date style `Postgres, MDY`.
pub fn apply_horology_session_settings(engine: &mut Engine, session: &SessionHandle) -> (r: Result<
    (),
    DbError,
>)
    requires
        old(engine).wf(),
    ensures
        final(engine).wf(),
        ran_both(
            old(engine)@,
            final(engine)@,
            session.id,
            PACIFIC_TIME_SQL@,
            POSTGRES_DATES_SQL@,
            r,
        ),
{
    run_both(engine, session, PACIFIC_TIME_SQL, POSTGRES_DATES_SQL)
}

pub const STANDARD_INTERVALS_SQL: &'static str = "SET IntervalStyle TO sql_standard";

/// Sets the interval style of the standard.
pub fn apply_interval_session_settings(engine: &mut Engine, session: &SessionHandle) -> (r: Result<
    (),
    DbError,
>)
    requires
        old(engine).wf(),
    ensures
        final(engine).wf(),
        ran(old(engine)@, final(engine)@, session.id, STANDARD_INTERVALS_SQL@, r),
{
    run(engine, session, STANDARD_INTERVALS_SQL)
}

/// The numbers of the tables of a chain of joins.
pub open spec fn chain_tables() -> Seq<u64> {
    seq![61, 17, 43, 59, 36, 58, 12, 14, 22, 53, 52, 39, 54, 38, 50, 27, 29]
}

/// The row of each table of the chain: the table's number, the row's own value and
/// the value that leads to the next table.
pub open spec fn chain_rows() -> Seq<(u64, u64, u64)> {
    seq![
        (61, 61, 53),
        (17, 17, 39),
        (43, 43, 54),
        (59, 59, 29),
        (36, 36, 22),
        (58, 58, 38),
        (12, 9, 0),
        (14, 14, 43),
        (22, 22, 52),
        (53, 53, 14),
        (52, 52, 61),
        (39, 39, 27),
        (54, 54, 9),
        (38, 38, 59),
        (50, 50, 58),
        (27, 27, 50),
        (29, 29, 36),
    ]
}

/// The statement that creates a table of the chain.
pub open spec fn chain_table_sql(id: u64) -> Seq<char> {
    let n = text::decimal(id as nat);
    "CREATE TABLE t"@ + n + " (a"@ + n + " INT PRIMARY KEY, b"@ + n + " INT, x"@ + n + " TEXT);"@
}

/// The statement that fills a table of the chain.
pub open spec fn chain_row_sql(row: (u64, u64, u64)) -> Seq<char> {
    let n = text::decimal(row.0 as nat);
    "INSERT INTO t"@ + n + " VALUES ("@ + text::decimal(row.1 as nat) + ", "@ + text::decimal(
        row.2 as nat,
    ) + ", 'x"@ + n + "');"@
}

/// The statements that create tables.
pub open spec fn chain_tables_sql(ids: Seq<u64>) -> Seq<char>
    decreases ids.len(),
{
    if ids.len() == 0 {
        Seq::empty()
    } else {
        chain_tables_sql(ids.drop_last()) + chain_table_sql(ids.last())
    }
}

/// The statements that fill tables.
pub open spec fn chain_rows_sql(rows: Seq<(u64, u64, u64)>) -> Seq<char>
    decreases rows.len(),
{
    if rows.len() == 0 {
        Seq::empty()
    } else {
        chain_rows_sql(rows.drop_last()) + chain_row_sql(rows.last())
    }
}

/// The statements that create and fill the tables of the chain.
pub open spec fn chain_sql() -> Seq<char> {
    chain_tables_sql(chain_tables()) + chain_rows_sql(chain_rows())
}

fn push_chain_table(s: &mut String, id: u64)
    ensures
        final(s)@ == old(s)@ + chain_table_sql(id),
{
    let ghost before = s@;
    s.append("CREATE TABLE t");
    text::push_decimal(s, id);
    s.append(" (a");
    text::push_decimal(s, id);
    s.append(" INT PRIMARY KEY, b");
    text::push_decimal(s, id);
    s.append(" INT, x");
    text::push_decimal(s, id);
    s.append(" TEXT);");
    assert(s@ =~= before + chain_table_sql(id));
}

fn push_chain_row(s: &mut String, row: (u64, u64, u64))
    ensures
        final(s)@ == old(s)@ + chain_row_sql(row),
{
    let ghost before = s@;
    s.append("INSERT INTO t");
    text::push_decimal(s, row.0);
    s.append(" VALUES (");
    text::push_decimal(s, row.1);
    s.append(", ");
    text::push_decimal(s, row.2);
    s.append(", 'x");
    text::push_decimal(s, row.0);
    s.append("');");
    assert(s@ =~= before + chain_row_sql(row));
}

fn select5_sql() -> (sql: String)
    ensures
        sql@ == chain_sql(),
{
    let ids: Vec<u64> = vec![61, 17, 43, 59, 36, 58, 12, 14, 22, 53, 52, 39, 54, 38, 50, 27, 29];
    assert(ids@ =~= chain_tables());
    let rows: Vec<(u64, u64, u64)> = vec![
        (61, 61, 53),
        (17, 17, 39),
        (43, 43, 54),
        (59, 59, 29),
        (36, 36, 22),
        (58, 58, 38),
        (12, 9, 0),
        (14, 14, 43),
        (22, 22, 52),
        (53, 53, 14),
        (52, 52, 61),
        (39, 39, 27),
        (54, 54, 9),
        (38, 38, 59),
        (50, 50, 58),
        (27, 27, 50),
        (29, 29, 36),
    ];
    assert(rows@ =~= chain_rows());
    let mut sql: String = String::new();
    let mut i: usize = 0;
    while i < ids.len()
        invariant
            i <= ids.len(),
            sql@ =~= chain_tables_sql(ids@.take(i as int)),
        decreases ids.len() - i,
    {
        push_chain_table(&mut sql, ids[i]);
        i += 1;
        assert(ids@.take(i as int).drop_last() =~= ids@.take(i - 1));
    }
    assert(ids@.take(i as int) =~= ids@);
    let mut j: usize = 0;
    while j < rows.len()
        invariant
            j <= rows.len(),
            sql@ =~= chain_tables_sql(chain_tables()) + chain_rows_sql(rows@.take(j as int)),
        decreases rows.len() - j,
    {
        push_chain_row(&mut sql, rows[j]);
        j += 1;
        assert(rows@.take(j as int).drop_last() =~= rows@.take(j - 1));
    }
    assert(rows@.take(j as int) =~= rows@);
    sql
}

/// Creates seventeen tables of one row each that form a chain of joins.
pub fn setup_select5_style_join_chain(engine: &mut Engine, session: &SessionHandle) -> (r: Result<
    (),
    DbError,
>)
    requires
        old(engine).wf(),
    ensures
        final(engine).wf(),
        ran(old(engine)@, final(engine)@, session.id, chain_sql(), r),
{
    let sql: String = select5_sql();
    run(engine, session, sql.as_str())
}

/// The number of rows of a seeded table.
pub const SEED_ROWS: u64 = 500;

/// The value list of row `i` of a seeded table.
pub open spec fn seed_row(i: nat) -> Seq<char> {
    "("@ + text::decimal(i) + ", "@ + text::decimal(i) + ", '"@ + (if i % 2 == 0 {
        "even"@
    } else {
        "odd"@
    }) + "')"@
}

/// The value lists of the first `n` rows of a seeded table.
pub open spec fn seed_rows(n: nat) -> Seq<char>
    decreases n,
{
    if n == 0 {
        Seq::empty()
    } else if n == 1 {
        seed_row(0)
    } else {
        seed_rows((n - 1) as nat) + ", "@ + seed_row((n - 1) as nat)
    }
}

/// The statement that seeds a table.
pub open spec fn seed_sql(table: Seq<char>) -> Seq<char> {
    "INSERT INTO "@ + table + " (id, val, tag) VALUES "@ + seed_rows(SEED_ROWS as nat)
}

fn push_seed_row(s: &mut String, i: u64)
    ensures
        final(s)@ == old(s)@ + seed_row(i as nat),
{
    let ghost before = s@;
    s.append("(");
    text::push_decimal(s, i);
    s.append(", ");
    text::push_decimal(s, i);
    s.append(", '");
    if i % 2 == 0 {
        s.append("even");
    } else {
        s.append("odd");
    }
    s.append("')");
    assert(s@ =~= before + seed_row(i as nat));
}

/// The statement that fills a table with `SEED_ROWS` rows.
pub fn build_seed_sql(table: &str) -> (sql: String)
    ensures
        sql@ == seed_sql(table@),
{
    let mut sql: String = text::owned("INSERT INTO ");
    sql.append(table);
    sql.append(" (id, val, tag) VALUES ");
    let ghost head = "INSERT INTO "@ + table@ + " (id, val, tag) VALUES "@;
    assert(sql@ =~= head + seed_rows(0));
    let mut i: u64 = 0;
    while i < SEED_ROWS
        invariant
            i <= SEED_ROWS,
            sql@ =~= head + seed_rows(i as nat),
        decreases SEED_ROWS - i,
    {
        if i > 0 {
            sql.append(", ");
        }
        push_seed_row(&mut sql, i);
        i += 1;
        assert(seed_rows(i as nat) =~= if i == 1 {
            seed_row(0)
        } else {
            seed_rows((i - 1) as nat) + ", "@ + seed_row((i - 1) as nat)
        });
    }
    sql
}

/// Whether a request for a session is one that fixtures make.
pub open spec fn is_request(
    p: StartupParams,
    user: Seq<char>,
    password: Option<Seq<char>>,
    network: Option<bool>,
) -> bool {
    &&& p@ == (StartupModel { user, password, application: Some("test"@), network })
    &&& p.database@ == "default"@
    &&& p.options@.len() == 0
}

/// A request for a session without a password.
pub fn startup_as(user: &str) -> (r: StartupParams)
    ensures
        is_request(r, user@, None, None),
{
    StartupParams {
        database: text::owned("default"),
        application_name: Some(text::owned("test")),
        options: Vec::new(),
        credential: Credential::Anonymous { user: text::owned(user) },
        transport: TransportInfo::in_process(),
    }
}

/// A request for a session with a password.
pub fn startup_with_password(user: &str, password: &str) -> (r: StartupParams)
    ensures
        is_request(r, user@, Some(password@), None),
{
    StartupParams {
        database: text::owned("default"),
        application_name: Some(text::owned("test")),
        options: Vec::new(),
        credential: Credential::CleartextPassword {
            user: text::owned(user),
            password: SecretString::new(text::owned(password)),
        },
        transport: TransportInfo::in_process(),
    }
}

/// A connection over a network.
pub fn network_transport(tls: bool) -> (r: TransportInfo)
    ensures
        r.kind matches TransportKind::Network { tls: t, peer_addr: Some(a) } && t == tls && a@
            == "127.0.0.1:5432"@,
{
    TransportInfo {
        kind: TransportKind::Network { tls, peer_addr: Some(text::owned("127.0.0.1:5432")) },
    }
}

/// A request for a session with a password over a network.
pub fn startup_with_network_password(user: &str, password: &str, tls: bool) -> (r: StartupParams)
    ensures
        is_request(r, user@, Some(password@), Some(tls)),
        r.transport.kind matches TransportKind::Network { tls: t, peer_addr: Some(a) } && t == tls
            && a@ == "127.0.0.1:5432"@,
{
    StartupParams {
        database: text::owned("default"),
        application_name: Some(text::owned("test")),
        options: Vec::new(),
        credential: Credential::CleartextPassword {
            user: text::owned(user),
            password: SecretString::new(text::owned(password)),
        },
        transport: network_transport(tls),
    }
}

pub const BOOTSTRAP_SQL: &'static str = "CREATE ROLE alice SUPERUSER LOGIN";

/// Makes `alice` a superuser. It has to come before any other role: as long as
/// there is none, everyone may create one.
pub fn bootstrap_admin(engine: &mut Engine, session: &SessionHandle) -> (r: Result<(), DbError>)
    requires
        old(engine).wf(),
    ensures
        final(engine).wf(),
        ran(old(engine)@, final(engine)@, session.id, BOOTSTRAP_SQL@, r),
{
    run(engine, session, BOOTSTRAP_SQL)
}

/// Whether settings ask nothing of a password.
pub open spec fn any_password(c: SecurityConfig) -> bool {
    &&& c.password_min_length == 0
    &&& !c.reject_role_name_as_password
    &&& !c.password_require_lowercase
    &&& !c.password_require_uppercase
    &&& !c.password_require_digit
    &&& !c.password_require_symbol
}

/// The settings that lock a user out for a minute after a number of failures.
pub fn auth_hardened_runtime(max_failures: u32) -> (r: RuntimeConfig)
    ensures
        r.security.max_auth_failures == max_failures,
        r.security.auth_lockout_window == 60,
        r.limits == portal::default_limits(),
        !r.security.durable_auth_lockout,
        r.security.auth_lockout_state_path is None,
        !r.security.require_tls_for_password,
        any_password(r.security),
{
    let mut runtime: RuntimeConfig = RuntimeConfig::default();
    runtime.security = SecurityConfig::from_profile(SecurityProfile::Development);
    runtime.security.max_auth_failures = max_failures;
    runtime.security.auth_lockout_window = 60;
    runtime
}

/// Whether an engine was just made from a store, and lets users start sessions that
/// are no roles.
pub open spec fn is_fresh(e: EngineModel, store: StoreModel) -> bool {
    e == engine::built(
        BuilderModel {
            config: e.g.config,
            limits: e.g.limits,
            manager: ManagerModel { last: 0, begins: 0, commits: 0, rollbacks: 0 },
            storage: txn::StorageSideModel::Plain,
            catalog: txn::CatalogSideModel::Plain,
            store,
            open: true,
        },
    )
}

/// An engine over a store.
fn engine_over(runtime: RuntimeConfig, store: Store) -> (e: Engine)
    requires
        store.wf(),
    ensures
        e.wf(),
        is_fresh(e@, store@),
        e@.g.config == runtime.security,
        e@.g.limits == runtime.limits,
{
    EngineBuilder::for_testing().with_runtime_config(runtime).with_store(store).build().unwrap()
}

/// An engine that locks a user out after a number of failures.
pub fn auth_hardened_engine(max_failures: u32) -> (e: Engine)
    ensures
        e.wf(),
        is_fresh(e@, engine::empty_store()),
        e@.g.config.max_auth_failures == max_failures,
        e@.g.config.auth_lockout_window == 60,
        !e@.g.config.durable_auth_lockout,
        e@.g.config.auth_lockout_state_path is None,
        !e@.g.config.require_tls_for_password,
        any_password(e@.g.config),
        e@.g.limits == portal::default_limits(),
{
    EngineBuilder::for_testing().with_runtime_config(
        auth_hardened_runtime(max_failures),
    ).build().unwrap()
}

/// An engine over a store that asks something of passwords.
pub fn password_policy_engine(
    password_min_length: usize,
    reject_role_name_as_password: bool,
    password_require_lowercase: bool,
    password_require_uppercase: bool,
    password_require_digit: bool,
    password_require_symbol: bool,
    store: Store,
) -> (e: Engine)
    requires
        store.wf(),
    ensures
        e.wf(),
        is_fresh(e@, store@),
        ({
            let c = e@.g.config;
            &&& e@.g.limits == portal::default_limits()
            &&& c.password_min_length == password_min_length
            &&& c.reject_role_name_as_password == reject_role_name_as_password
            &&& c.password_require_lowercase == password_require_lowercase
            &&& c.password_require_uppercase == password_require_uppercase
            &&& c.password_require_digit == password_require_digit
            &&& c.password_require_symbol == password_require_symbol
            &&& c.max_auth_failures == 0
            &&& c.auth_lockout_window == 0
            &&& !c.durable_auth_lockout
            &&& c.auth_lockout_state_path is None
            &&& !c.require_tls_for_password
        }),
{
    let mut runtime: RuntimeConfig = RuntimeConfig::default();
    runtime.security = SecurityConfig::from_profile(SecurityProfile::Development);
    runtime.security.password_min_length = password_min_length;
    runtime.security.reject_role_name_as_password = reject_role_name_as_password;
    runtime.security.password_require_lowercase = password_require_lowercase;
    runtime.security.password_require_uppercase = password_require_uppercase;
    runtime.security.password_require_digit = password_require_digit;
    runtime.security.password_require_symbol = password_require_symbol;
    engine_over(runtime, store)
}

/// An engine over a store that keeps the failures of its users.
pub fn durable_lockout_engine(max_failures: u32, state_path: String, store: Store) -> (e: Engine)
    requires
        store.wf(),
    ensures
        e.wf(),
        is_fresh(e@, store@),
        ({
            let c = e@.g.config;
            &&& e@.g.limits == portal::default_limits()
            &&& c.max_auth_failures == max_failures
            &&& c.auth_lockout_window == 60
            &&& c.durable_auth_lockout
            &&& c.auth_lockout_state_path == Some(state_path)
            &&& !c.require_tls_for_password
            &&& any_password(c)
        }),
{
    let mut runtime: RuntimeConfig = auth_hardened_runtime(max_failures);
    runtime.security.durable_auth_lockout = true;
    runtime.security.auth_lockout_state_path = Some(state_path);
    engine_over(runtime, store)
}

/// An engine over a store that takes passwords over encrypted connections alone.
pub fn tls_required_engine(store: Store) -> (e: Engine)
    requires
        store.wf(),
    ensures
        e.wf(),
        is_fresh(e@, store@),
        ({
            let c = e@.g.config;
            &&& e@.g.limits == portal::default_limits()
            &&& c.require_tls_for_password
            &&& c.max_auth_failures == 0
            &&& c.auth_lockout_window == 0
            &&& !c.durable_auth_lockout
            &&& c.auth_lockout_state_path is None
            &&& any_password(c)
        }),
{
    let mut runtime: RuntimeConfig = RuntimeConfig::default();
    runtime.security = SecurityConfig::from_profile(SecurityProfile::Development);
    runtime.security.require_tls_for_password = true;
    engine_over(runtime, store)
}

} // verus!
