//! The engine: sessions are started, send statements and are ended.

use vstd::prelude::*;
use crate::analyze::Params;
use crate::ast::IsolationLevel;
use crate::auth;
use crate::auth::Attempts;
use crate::auth::LockoutModel;
use crate::auth::LockoutState;
use crate::auth::Credential;
use crate::auth::SecretString;
use crate::auth::StartupModel;
use crate::auth::StartupParams;
use crate::auth::TransportKind;
use crate::ast::Privileges;
use crate::catalog;
use crate::catalog::Object;
use crate::defined;
use crate::catalog::Db;
use crate::catalog::DbModel;
use crate::fault;
use crate::fields;
use crate::fault::Aftermath;
use crate::fault::DbError;
use crate::fault::ErrorModel;
use crate::datum::Tuple;
use crate::fault::Fault;
use crate::lexer;
use crate::lexer::Tok;
use crate::notice;
use crate::notice::Notice;
use crate::parser;
use crate::portal;
use crate::portal::LimitsConfig;
use crate::portal::PortalModel;
use crate::prepared;
use crate::prepared::BatchModel;
use crate::prepared::DescriptionModel;
use crate::prepared::Part;
use crate::prepared::PortalBatch;
use crate::prepared::Prepared;
use crate::prepared::StatementDescription;
use crate::security;
use crate::security::RuntimeConfig;
use crate::security::SecurityConfig;
use crate::security::SecurityProfile;
use crate::session;
use crate::session::Failure;
use crate::session::Reply;
use crate::session::ReplyModel;
use crate::session::Run;
use crate::session::Session;
use crate::session::SessionModel;
use crate::session::Shared;
use crate::session::SharedModel;
use crate::session::World;
use crate::settings;
use crate::settings::Vars;
use crate::symbols;
use crate::symbols::Symbols;
use crate::text;
use crate::txn;
use crate::txn::CatalogSide;
use crate::txn::CountingTransactionManager;
use crate::txn::ManagerModel;
use crate::txn::RecordingSavepointStorageTxnParticipant;
use crate::txn::StorageSide;
use crate::txn::TxnId;
use crate::value;
use crate::value::ResultModel;
use crate::value::StatementResult;
use crate::value::Value;
use crate::value::ValueModel;

verus! {

/// A session of an engine.
#[derive(Clone, Copy, PartialEq, Eq, Debug, Structural)]
pub struct SessionHandle {
    pub id: u64,
}

/// Who a session is for.
#[derive(Debug)]
pub struct Identity {
    pub user: String,
}

/// The time in milliseconds that a statement may take; 0 stands for no limit.
#[derive(Clone, Copy, PartialEq, Eq, Debug, Structural)]
pub struct SessionLimits {
    pub statement_timeout: u64,
}

/// What is known of a session.
#[derive(Debug)]
pub struct SessionInfo {
    pub identity: Identity,
    pub limits: SessionLimits,
}

/// A role as the catalog has it.
#[derive(Clone, Copy, PartialEq, Eq, Debug, Structural)]
pub struct RoleDescriptor {
    pub superuser: bool,
    pub login: bool,
    pub has_password: bool,
}

/// What outlives an engine: its names and texts, its committed state, and the
/// failures of users that are kept, each list at its path.
pub struct Store {
    symbols: Symbols,
    db: Db,
    lockouts: Vec<LockoutState>,
}

pub struct StoreModel {
    pub symbols: Seq<Seq<char>>,
    pub db: DbModel,
    pub lockouts: Seq<LockoutModel>,
}

impl View for Store {
    type V = StoreModel;

    closed spec fn view(&self) -> StoreModel {
        StoreModel {
            symbols: self.symbols@,
            db: self.db@,
            lockouts: auth::states_view(self.lockouts@),
        }
    }
}

/// A store with nothing in it.
pub open spec fn empty_store() -> StoreModel {
    StoreModel {
        symbols: symbols::well_known(),
        db: catalog::empty_db(),
        lockouts: Seq::empty(),
    }
}

impl Store {
    pub open spec fn wf(&self) -> bool {
        symbols::is_table(self@.symbols)
    }

    /// A store with nothing in it.
    pub fn new() -> (r: Store)
        ensures
            r.wf(),
            r@ == empty_store(),
    {
        let lockouts: Vec<LockoutState> = Vec::new();
        assert(auth::states_view(lockouts@) =~= Seq::empty());
        Store { symbols: Symbols::new(), db: Db::new(), lockouts }
    }
}

/// An engine.
pub struct Engine {
    shared: Shared,
    sessions: Vec<(u64, Session)>,
    prepared: Vec<Prepared>,
    next_session: u64,
    attempts: Vec<Attempts>,
    lockouts: Vec<LockoutState>,
    clock: u64,
    open: bool,
}

/// An engine: what its sessions share, the sessions by number, the statements that
/// they have prepared, the number of the next session, the failures of its users,
/// those that were kept before it started, its clock in seconds, and whether users
/// that are no roles may start sessions.
#[verifier::ext_equal]
pub struct EngineModel {
    pub g: SharedModel,
    pub sessions: Seq<(u64, SessionModel)>,
    pub prepared: Seq<Prepared>,
    pub next: u64,
    pub attempts: Seq<Attempts>,
    pub lockouts: Seq<LockoutModel>,
    pub clock: u64,
    pub open: bool,
}

pub open spec fn sessions_view(v: Seq<(u64, Session)>) -> Seq<(u64, SessionModel)> {
    v.map_values(|p: (u64, Session)| (p.0, p.1@))
}

impl View for Engine {
    type V = EngineModel;

    closed spec fn view(&self) -> EngineModel {
        EngineModel {
            g: self.shared@,
            sessions: sessions_view(self.sessions@),
            prepared: self.prepared@,
            next: self.next_session,
            attempts: self.attempts@,
            lockouts: auth::states_view(self.lockouts@),
            clock: self.clock,
            open: self.open,
        }
    }
}

/// The first place at or after `from` of the session with a given number.
pub open spec fn session_place(v: Seq<(u64, SessionModel)>, id: u64, from: int) -> Option<int>
    decreases v.len() - from,
{
    if from < 0 || from >= v.len() {
        None
    } else if v[from].0 == id {
        Some(from)
    } else {
        session_place(v, id, from + 1)
    }
}

/// The session with a given number.
pub open spec fn session_of(e: EngineModel, id: u64) -> Option<SessionModel> {
    match session_place(e.sessions, id, 0) {
        None => None,
        Some(i) => Some(e.sessions[i].1),
    }
}

/// A session stays at its place when it changes.
pub proof fn lemma_place_kept(
    v: Seq<(u64, SessionModel)>,
    i: int,
    s: SessionModel,
    id: u64,
    from: int,
)
    requires
        0 <= i < v.len(),
        0 <= from,
    ensures
        session_place(v.update(i, (v[i].0, s)), id, from) == session_place(v, id, from),
    decreases v.len() - from,
{
    if from < v.len() {
        lemma_place_kept(v, i, s, id, from + 1);
    }
}

/// Where a session is, if it is there.
pub proof fn lemma_session_place(v: Seq<(u64, SessionModel)>, id: u64, from: int)
    requires
        0 <= from,
    ensures
        session_place(v, id, from) matches Some(i) ==> from <= i < v.len() && v[i].0 == id,
    decreases v.len() - from,
{
    if from < v.len() && v[from].0 != id {
        lemma_session_place(v, id, from + 1);
    }
}

/// An engine in which the session at place `i` and what all sessions share are
/// those of `w`.
pub open spec fn with_world(e: EngineModel, i: int, w: World) -> EngineModel {
    EngineModel { g: w.g, sessions: e.sessions.update(i, (e.sessions[i].0, w.s)), ..e }
}

/// The answer of a call that does not know the session.
pub open spec fn unknown(e: EngineModel) -> ErrorModel {
    fault::reported(e.g.symbols, Fault::UnknownSession, Aftermath::Nothing)
}

/// Statements that cannot be read: they fail as a whole.
pub open spec fn rejected(w: World, f: Fault) -> Run {
    Run { w: session::with_session(w, session::failed(w.s)), r: Err(session::failure(f)) }
}

/// What a text of statements makes of an engine and one of its sessions. All of
/// it is read before any of it is executed.
#[verifier::opaque]
pub open spec fn text_run(w: World, sql: Seq<char>) -> Run {
    let lx = lexer::lexed(w.g.symbols, sql);
    let w1 = World { g: SharedModel { symbols: lx.table, ..w.g }, s: w.s };
    match lx.tokens {
        Err(f) => rejected(w1, f),
        Ok(ts) => match parser::parsed(ts) {
            Err(f) => rejected(w1, f),
            Ok(stmts) => session::batch(w1, stmts, Seq::empty()),
        },
    }
}

/// The results that a client gets.
pub open spec fn run_results(run: Run) -> Result<Seq<ResultModel>, ErrorModel> {
    match run.r {
        Ok(rs) => Ok(value::rendered_all(run.w.g.symbols, rs)),
        Err(f) => Err(fault::reported(run.w.g.symbols, f.fault, f.aftermath)),
    }
}

/// What a text of statements of a session makes of an engine, and its results.
pub open spec fn executed(e: EngineModel, id: u64, sql: Seq<char>) -> (
    EngineModel,
    Result<Seq<ResultModel>, ErrorModel>,
) {
    match session_place(e.sessions, id, 0) {
        None => (e, Err(unknown(e))),
        Some(i) => {
            let run = text_run(World { g: e.g, s: e.sessions[i].1 }, sql);
            (with_world(e, i, run.w), run_results(run))
        },
    }
}

pub open spec fn results_result(r: Result<Vec<StatementResult>, DbError>) -> Result<
    Seq<ResultModel>,
    ErrorModel,
> {
    match r {
        Ok(v) => Ok(value::results_view(v@)),
        Err(e) => Err(e@),
    }
}

/// The number of the user and of the application of a client, with the table of
/// names they are entered in.
pub open spec fn startup_names(t: Seq<Seq<char>>, p: StartupModel) -> (
    Seq<Seq<char>>,
    usize,
    Option<usize>,
) {
    let t1 = symbols::entered(t, p.user);
    let user = symbols::number(t, p.user);
    match p.application {
        None => (t1, user, None),
        Some(a) => (symbols::entered(t1, a), user, Some(symbols::number(t1, a))),
    }
}

/// A new session of a user.
pub open spec fn new_session(user: usize, application: Option<usize>) -> SessionModel {
    SessionModel {
        user,
        initial: settings::initial_vars(user, application),
        vars: settings::initial_vars(user, application),
        notices: Seq::empty(),
        txn: None,
        params: Params::Missing,
        portals: Seq::empty(),
        next_portal: 0,
        prepared: 0,
    }
}

/// What the request of a client for a session makes of an engine; the answer is
/// the number of the session and of its user.
pub open spec fn started(e: EngineModel, p: StartupModel) -> (
    EngineModel,
    Result<(u64, usize), Fault>,
) {
    let (t, user, application) = startup_names(e.g.symbols, p);
    let e1 = EngineModel { g: SharedModel { symbols: t, ..e.g }, ..e };
    let c = e.g.config;
    if auth::is_locked(e.attempts, c, user, e.clock) {
        (e1, Err(Fault::TooManyFailures))
    } else if c.require_tls_for_password && p.password is Some && p.network == Some(false) {
        (e1, Err(Fault::TlsRequired))
    } else {
        match auth::login_fault(e.g.committed, t, e.open, user, p.password) {
            Some(f) => (
                EngineModel {
                    attempts: auth::with_failure(
                        e.attempts,
                        user,
                        e.clock,
                        c.auth_lockout_window,
                    ),
                    ..e1
                },
                Err(auth::told_fault(f, p.network)),
            ),
            None => if e.next == u64::MAX {
                (e1, Err(Fault::IdentifiersExhausted))
            } else {
                (
                    EngineModel {
                        sessions: e.sessions.push((e.next, new_session(user, application))),
                        next: (e.next + 1) as u64,
                        attempts: auth::without_failures(e.attempts, user),
                        ..e1
                    },
                    Ok((e.next, user)),
                )
            },
        }
    }
}

/// Whether the answer of `startup` is the one that is stated.
pub open spec fn startup_is(
    e: EngineModel,
    r: Result<(SessionHandle, SessionInfo), DbError>,
    s: Result<(u64, usize), Fault>,
) -> bool {
    match (r, s) {
        (Ok((h, info)), Ok((id, user))) => {
            &&& h.id == id
            &&& info.identity.user@ == symbols::text_at(e.g.symbols, user)
            &&& info.limits.statement_timeout == 0
        },
        (Err(x), Err(f)) => x@ == fault::reported(e.g.symbols, f, Aftermath::Nothing),
        _ => false,
    }
}

/// An engine in which a session was ended: its transaction is rolled back, and its
/// prepared statements are gone.
pub open spec fn terminated(e: EngineModel, id: u64) -> EngineModel {
    match session_place(e.sessions, id, 0) {
        None => e,
        Some(i) => EngineModel {
            g: session::undone(World { g: e.g, s: e.sessions[i].1 }).g,
            sessions: e.sessions.remove(i),
            prepared: prepared::of_others(e.prepared, id),
            ..e
        },
    }
}

/// The error that a fault is for a client of an engine.
pub open spec fn told(e: EngineModel, f: Fault) -> ErrorModel {
    fault::reported(e.g.symbols, f, Aftermath::Nothing)
}

/// An engine with a text entered in its table of names.
pub open spec fn with_name(e: EngineModel, name: Seq<char>) -> EngineModel {
    EngineModel {
        g: SharedModel { symbols: symbols::entered(e.g.symbols, name), ..e.g },
        ..e
    }
}

/// The world of the session at place `i`.
pub open spec fn world_at(e: EngineModel, i: int) -> World {
    World { g: e.g, s: e.sessions[i].1 }
}

/// What the preparation of a statement in a session makes of an engine, and the
/// description of the statement.
#[verifier::opaque]
pub open spec fn preparing(e: EngineModel, id: u64, name: Seq<char>, sql: Seq<char>) -> (
    EngineModel,
    Result<DescriptionModel, Fault>,
) {
    match session_place(e.sessions, id, 0) {
        None => (e, Err(Fault::UnknownSession)),
        Some(i) => {
            let (w, ps, r) = prepared::preparation(world_at(e, i), e.prepared, id, name, sql);
            (EngineModel { prepared: ps, ..with_world(e, i, w) }, r)
        },
    }
}

/// The description of a prepared statement of a session.
#[verifier::opaque]
pub open spec fn describing(e: EngineModel, id: u64, name: usize) -> Result<
    DescriptionModel,
    Fault,
> {
    match session_place(e.sessions, id, 0) {
        None => Err(Fault::UnknownSession),
        Some(i) => match prepared::prepared_place(e.prepared, id, name, 0) {
            None => Err(Fault::UnknownStatement { name }),
            Some(j) => {
                let p = e.prepared[j];
                match prepared::current_columns(world_at(e, i), Params::Unknown, p.stmt) {
                    Err(f) => Err(f),
                    Ok(fs) => Ok(prepared::description(world_at(e, i), p.stmt, p.params, fs)),
                }
            },
        },
    }
}

/// The description of the statement of a portal, with the values that it was bound
/// to.
#[verifier::opaque]
pub open spec fn describing_portal(e: EngineModel, id: u64, name: usize) -> Result<
    DescriptionModel,
    Fault,
> {
    match session_place(e.sessions, id, 0) {
        None => Err(Fault::UnknownSession),
        Some(i) => {
            let ps = e.sessions[i].1.portals;
            match portal::portal_place(ps, name, 0) {
                None => Err(Fault::UnknownPortal { name }),
                Some(k) => match ps[k].statement {
                    None => Err(Fault::UnknownPortal { name }),
                    Some(statement) => match prepared::prepared_place(
                        e.prepared,
                        id,
                        statement,
                        0,
                    ) {
                        None => Err(Fault::UnknownPortal { name }),
                        Some(j) => {
                            let p = e.prepared[j];
                            match prepared::current_columns(
                                world_at(e, i),
                                ps[k].params,
                                p.stmt,
                            ) {
                                Err(f) => Err(f),
                                Ok(fs) => Ok(
                                    prepared::description(world_at(e, i), p.stmt, p.params, fs),
                                ),
                            }
                        },
                    },
                },
            }
        },
    }
}

/// What the binding of a portal makes of an engine.
#[verifier::opaque]
pub open spec fn binding(
    e: EngineModel,
    id: u64,
    name: Seq<char>,
    statement: Seq<char>,
    values: Seq<ValueModel>,
) -> (EngineModel, Result<(), Fault>) {
    match session_place(e.sessions, id, 0) {
        None => (e, Err(Fault::UnknownSession)),
        Some(i) => {
            let n = symbols::number(e.g.symbols, name);
            let t1 = symbols::entered(e.g.symbols, name);
            let m = symbols::number(t1, statement);
            let (t2, tuple) = prepared::taken(symbols::entered(t1, statement), values, 0);
            let e1 = EngineModel { g: SharedModel { symbols: t2, ..e.g }, ..e };
            let (s, r) = prepared::bound(
                world_at(e1, i),
                e.prepared,
                id,
                n,
                m,
                tuple,
                values.len() as u64,
            );
            (with_world(e1, i, World { g: e1.g, s }), r)
        },
    }
}

/// What the execution of a portal makes of an engine, and what the client gets.
#[verifier::opaque]
pub open spec fn executing(e: EngineModel, id: u64, name: Seq<char>, max: u64) -> (
    EngineModel,
    Result<BatchModel, ErrorModel>,
) {
    match session_place(e.sessions, id, 0) {
        None => (e, Err(unknown(e))),
        Some(i) => {
            let e1 = with_name(e, name);
            let (w, r) = prepared::portal_run(
                world_at(e1, i),
                e.prepared,
                id,
                symbols::number(e.g.symbols, name),
                max,
            );
            (
                with_world(e1, i, w),
                match r {
                    Ok(part) => Ok(prepared::batch_of(w.g.symbols, part)),
                    Err(f) => Err(fault::reported(w.g.symbols, f.fault, f.aftermath)),
                },
            )
        },
    }
}

/// The execution of a portal leaves its session at its place.
proof fn lemma_executing_place(e: EngineModel, id: u64, name: Seq<char>, max: u64)
    requires
        executing(e, id, name, max).1 is Ok,
    ensures
        session_place(executing(e, id, name, max).0.sessions, id, 0) == session_place(
            e.sessions,
            id,
            0,
        ),
        session_place(e.sessions, id, 0) is Some,
{
    reveal(executing);
    lemma_session_place(e.sessions, id, 0);
    match session_place(e.sessions, id, 0) {
        None => {},
        Some(i) => {
            let w = prepared::portal_run(
                world_at(with_name(e, name), i),
                e.prepared,
                id,
                symbols::number(e.g.symbols, name),
                max,
            ).0;
            lemma_place_kept(e.sessions, i, w.s, id, 0);
        },
    }
}

/// An engine in which a prepared statement of a session was closed.
pub open spec fn closing(e: EngineModel, id: u64, name: usize) -> (EngineModel, Result<(), Fault>) {
    match session_place(e.sessions, id, 0) {
        None => (e, Err(Fault::UnknownSession)),
        Some(i) => match prepared::prepared_place(e.prepared, id, name, 0) {
            None => (e, Err(Fault::UnknownStatement { name })),
            Some(j) => {
                let s = e.sessions[i].1;
                (
                    EngineModel {
                        prepared: e.prepared.remove(j),
                        ..with_world(
                            e,
                            i,
                            World {
                                g: e.g,
                                s: SessionModel {
                                    prepared: if s.prepared > 0 {
                                        (s.prepared - 1) as u64
                                    } else {
                                        0
                                    },
                                    ..s
                                },
                            },
                        )
                    },
                    Ok(()),
                )
            },
        },
    }
}

pub open spec fn batch_result(r: Result<PortalBatch, DbError>) -> Result<BatchModel, ErrorModel> {
    match r {
        Ok(b) => Ok(b@),
        Err(e) => Err(e@),
    }
}

/// Whether the answer of a call is the one that is stated.
pub open spec fn answers<T, V>(
    e: EngineModel,
    r: Result<T, DbError>,
    s: Result<V, Fault>,
    same: spec_fn(T, V) -> bool,
) -> bool {
    match (r, s) {
        (Ok(x), Ok(y)) => same(x, y),
        (Err(x), Err(f)) => x@ == told(e, f),
        _ => false,
    }
}

/// Whether a statement of a session would see a table.
pub open spec fn table_seen(
    e: EngineModel,
    s: SessionModel,
    schema: Seq<char>,
    name: Seq<char>,
) -> bool {
    match (symbols::place(e.g.symbols, schema), symbols::place(e.g.symbols, name)) {
        (Some(x), Some(y)) => catalog::table_place(
            session::seen(World { g: e.g, s }).tables,
            x,
            y,
            0,
        ) is Some,
        _ => false,
    }
}

impl Engine {
    pub open spec fn wf(&self) -> bool {
        symbols::is_table(self@.g.symbols)
    }

    fn place(&self, id: u64) -> (r: Option<usize>)
        ensures
            match r {
                Some(i) => i < self.sessions.len() && session_place(self@.sessions, id, 0) == Some(
                    i as int,
                ),
                None => session_place(self@.sessions, id, 0) is None,
            },
    {
        let mut i: usize = 0;
        while i < self.sessions.len()
            invariant
                i <= self.sessions.len(),
                session_place(self@.sessions, id, 0) == session_place(
                    self@.sessions,
                    id,
                    i as int,
                ),
            decreases self.sessions.len() - i,
        {
            assert(self@.sessions[i as int].0 == self.sessions@[i as int].0);
            if self.sessions[i].0 == id {
                return Some(i);
            }
            i += 1;
        }
        None
    }

    fn error(&self, f: Fault, a: Aftermath) -> (r: DbError)
        ensures
            r@ == fault::reported(self@.g.symbols, f, a),
    {
        DbError::from_fault(&self.shared.symbols, f, a)
    }

    /// Starts a session for a client.
    pub fn startup(&mut self, params: StartupParams) -> (r: Result<
        (SessionHandle, SessionInfo),
        DbError,
    >)
        requires
            old(self).wf(),
        ensures
            final(self).wf(),
            final(self)@ == started(old(self)@, params@).0,
            startup_is(final(self)@, r, started(old(self)@, params@).1),
    {
        let (name, password): (String, Option<SecretString>) = match params.credential {
            Credential::Anonymous { user } => (user, None),
            Credential::CleartextPassword { user, password } => (user, Some(password)),
        };
        let network: Option<bool> = match params.transport.kind {
            TransportKind::InProcess => None,
            TransportKind::Network { tls, .. } => Some(tls),
        };
        let ghost p = params@;
        let ghost e0 = self@;
        let user: usize = self.shared.symbols.enter(text::chars_of(name.as_str()));
        let application: Option<usize> = match params.application_name {
            None => None,
            Some(a) => Some(self.shared.symbols.enter(text::chars_of(a.as_str()))),
        };
        assert((self@.g.symbols, user, application) == startup_names(e0.g.symbols, p));
        assert(self@ =~= (EngineModel {
            g: SharedModel { symbols: self@.g.symbols, ..e0.g },
            ..e0
        }));
        if auth::locked(&self.attempts, &self.shared.config, user, self.clock) {
            return Err(self.error(Fault::TooManyFailures, Aftermath::Nothing));
        }
        let clear: bool = match network {
            Some(tls) => !tls,
            None => false,
        };
        if self.shared.config.require_tls_for_password && password.is_some() && clear {
            return Err(self.error(Fault::TlsRequired, Aftermath::Nothing));
        }
        match auth::check_login(
            &self.shared.committed,
            &self.shared.symbols,
            self.open,
            user,
            &password,
        ) {
            Some(f) => {
                auth::note_failure(
                    &mut self.attempts,
                    user,
                    self.clock,
                    self.shared.config.auth_lockout_window,
                );
                let told: Fault = match network {
                    None => f,
                    Some(_) => Fault::LoginRefused,
                };
                Err(self.error(told, Aftermath::Nothing))
            },
            None => {
                if self.next_session == u64::MAX {
                    return Err(self.error(Fault::IdentifiersExhausted, Aftermath::Nothing));
                }
                let id: u64 = self.next_session;
                auth::forget_failures(&mut self.attempts, user);
                let session: Session = Session {
                    user,
                    initial: Vars::initial(user, application),
                    vars: Vars::initial(user, application),
                    notices: Vec::new(),
                    txn: None,
                    params: Params::Missing,
                    portals: Vec::new(),
                    next_portal: 0,
                    prepared: 0,
                };
                assert(portal::portals_view(session.portals@) =~= Seq::<PortalModel>::empty());
                let ghost before = self.sessions@;
                self.sessions.push((id, session));
                assert(sessions_view(self.sessions@) =~= sessions_view(before).push(
                    (id, session@),
                ));
                self.next_session = id + 1;
                let info: SessionInfo = SessionInfo {
                    identity: Identity { user: self.shared.symbols.text(user) },
                    limits: SessionLimits { statement_timeout: 0 },
                };
                Ok((SessionHandle { id }, info))
            },
        }
    }

    /// Takes a session out of the engine.
    fn take_session(&mut self, i: usize) -> (s: Session)
        requires
            i < old(self).sessions.len(),
        ensures
            s@ == old(self)@.sessions[i as int].1,
            final(self).sessions@ == old(self).sessions@.remove(i as int),
            final(self).shared == old(self).shared,
            final(self).prepared == old(self).prepared,
            final(self).next_session == old(self).next_session,
            final(self).attempts == old(self).attempts,
            final(self).lockouts == old(self).lockouts,
            final(self).clock == old(self).clock,
            final(self).open == old(self).open,
    {
        let (_, s): (u64, Session) = self.sessions.remove(i);
        s
    }

    /// Reads statements and executes them in a session; the results are in order.
    pub fn execute_sql(&mut self, session: &SessionHandle, sql: &str) -> (r: Result<
        Vec<StatementResult>,
        DbError,
    >)
        requires
            old(self).wf(),
        ensures
            final(self).wf(),
            (final(self)@, results_result(r)) == executed(old(self)@, session.id, sql@),
    {
        let i: usize = match self.place(session.id) {
            None => {
                return Err(self.error(Fault::UnknownSession, Aftermath::Nothing));
            },
            Some(i) => i,
        };
        let ghost e0 = self@;
        let ghost all = self.sessions@;
        let id: u64 = self.sessions[i].0;
        let s: Session = self.take_session(i);
        let (s, r): (Session, Result<Vec<Reply>, Failure>) = run_text(&mut self.shared, s, sql);
        self.sessions.insert(i, (id, s));
        assert(sessions_view(self.sessions@) =~= sessions_view(all).update(i as int, (id, s@)));
        assert(self@ =~= with_world(e0, i as int, text_run(
            World { g: e0.g, s: e0.sessions[i as int].1 },
            sql@,
        ).w));
        match r {
            Ok(replies) => Ok(value::render_all(&self.shared.symbols, replies)),
            Err(f) => Err(self.error(f.fault, f.aftermath)),
        }
    }

    /// Puts a session back at its place.
    fn put_session(&mut self, i: usize, id: u64, s: Session)
        requires
            i <= old(self).sessions.len(),
        ensures
            final(self).sessions@ == old(self).sessions@.insert(i as int, (id, s)),
            final(self).shared == old(self).shared,
            final(self).prepared == old(self).prepared,
            final(self).next_session == old(self).next_session,
            final(self).attempts == old(self).attempts,
            final(self).lockouts == old(self).lockouts,
            final(self).clock == old(self).clock,
            final(self).open == old(self).open,
    {
        self.sessions.insert(i, (id, s));
    }

    /// Reads a statement and keeps it under a name, to be executed later.
    pub fn prepare(&mut self, session: &SessionHandle, name: String, sql: String) -> (r: Result<
        StatementDescription,
        DbError,
    >)
        requires
            old(self).wf(),
        ensures
            final(self).wf(),
            final(self)@ == preparing(old(self)@, session.id, name@, sql@).0,
            answers(
                final(self)@,
                r,
                preparing(old(self)@, session.id, name@, sql@).1,
                |x: StatementDescription, y: DescriptionModel| x@ == y,
            ),
    {
        proof {
            reveal(preparing);
        }
        let i: usize = match self.place(session.id) {
            None => {
                return Err(self.error(Fault::UnknownSession, Aftermath::Nothing));
            },
            Some(i) => i,
        };
        let ghost e0 = self@;
        let ghost all = self.sessions@;
        let id: u64 = self.sessions[i].0;
        let s: Session = self.take_session(i);
        assert(world_at(e0, i as int) == (World { g: self.shared@, s: s@ }));
        let (s, r): (Session, Result<StatementDescription, Fault>) = prepared::prepare(
            &mut self.shared,
            s,
            &mut self.prepared,
            session.id,
            name.as_str(),
            sql.as_str(),
        );
        let ghost w = World { g: self.shared@, s: s@ };
        let ghost ps = self.prepared@;
        self.put_session(i, id, s);
        assert(sessions_view(self.sessions@) =~= sessions_view(all).update(i as int, (id, s@)));
        assert(self@ =~= (EngineModel { prepared: ps, ..with_world(e0, i as int, w) }));
        match r {
            Ok(d) => Ok(d),
            Err(f) => Err(self.error(f, Aftermath::Nothing)),
        }
    }

    /// Describes a prepared statement as it would be executed now.
    pub fn describe_statement(&mut self, session: &SessionHandle, name: &str) -> (r: Result<
        StatementDescription,
        DbError,
    >)
        requires
            old(self).wf(),
        ensures
            final(self).wf(),
            final(self)@ == with_name(old(self)@, name@),
            answers(
                final(self)@,
                r,
                describing(
                    final(self)@,
                    session.id,
                    symbols::number(old(self)@.g.symbols, name@),
                ),
                |x: StatementDescription, y: DescriptionModel| x@ == y,
            ),
    {
        proof {
            reveal(describing);
        }
        let n: usize = self.shared.symbols.enter(text::chars_of(name));
        let i: usize = match self.place(session.id) {
            None => {
                return Err(self.error(Fault::UnknownSession, Aftermath::Nothing));
            },
            Some(i) => i,
        };
        assert(world_at(self@, i as int) == (World {
            g: self.shared@,
            s: self.sessions@[i as int].1@,
        }));
        let j: usize = match prepared::find_prepared(&self.prepared, session.id, n) {
            None => {
                return Err(self.error(Fault::UnknownStatement { name: n }, Aftermath::Nothing));
            },
            Some(j) => j,
        };
        let p: &Prepared = &self.prepared[j];
        let s: &Session = &self.sessions[i].1;
        match prepared::find_current_columns(&self.shared, s, &Params::Unknown, &p.stmt) {
            Err(f) => Err(self.error(f, Aftermath::Nothing)),
            Ok(fs) => Ok(prepared::describe_as(&self.shared, s, &p.stmt, p.params, &fs)),
        }
    }

    /// Describes the statement of a portal as it would be executed now.
    pub fn describe_portal(&mut self, session: &SessionHandle, name: &str) -> (r: Result<
        StatementDescription,
        DbError,
    >)
        requires
            old(self).wf(),
        ensures
            final(self).wf(),
            final(self)@ == with_name(old(self)@, name@),
            answers(
                final(self)@,
                r,
                describing_portal(
                    final(self)@,
                    session.id,
                    symbols::number(old(self)@.g.symbols, name@),
                ),
                |x: StatementDescription, y: DescriptionModel| x@ == y,
            ),
    {
        proof {
            reveal(describing_portal);
        }
        let n: usize = self.shared.symbols.enter(text::chars_of(name));
        let i: usize = match self.place(session.id) {
            None => {
                return Err(self.error(Fault::UnknownSession, Aftermath::Nothing));
            },
            Some(i) => i,
        };
        assert(world_at(self@, i as int) == (World {
            g: self.shared@,
            s: self.sessions@[i as int].1@,
        }));
        let s: &Session = &self.sessions[i].1;
        let k: usize = match portal::find_portal(&s.portals, n) {
            None => {
                return Err(self.error(Fault::UnknownPortal { name: n }, Aftermath::Nothing));
            },
            Some(k) => k,
        };
        assert(s@.portals[k as int] == s.portals@[k as int]@);
        let statement: usize = match s.portals[k].statement {
            None => {
                return Err(self.error(Fault::UnknownPortal { name: n }, Aftermath::Nothing));
            },
            Some(m) => m,
        };
        let j: usize = match prepared::find_prepared(&self.prepared, session.id, statement) {
            None => {
                return Err(self.error(Fault::UnknownPortal { name: n }, Aftermath::Nothing));
            },
            Some(j) => j,
        };
        let p: &Prepared = &self.prepared[j];
        match prepared::find_current_columns(&self.shared, s, &s.portals[k].params, &p.stmt) {
            Err(f) => Err(self.error(f, Aftermath::Nothing)),
            Ok(fs) => Ok(prepared::describe_as(&self.shared, s, &p.stmt, p.params, &fs)),
        }
    }

    /// Forgets a prepared statement. Its portals are not known any more.
    pub fn close_statement(&mut self, session: &SessionHandle, name: &str) -> (r: Result<
        (),
        DbError,
    >)
        requires
            old(self).wf(),
        ensures
            final(self).wf(),
            ({
                let n = symbols::number(old(self)@.g.symbols, name@);
                let c = closing(with_name(old(self)@, name@), session.id, n);
                &&& final(self)@ == c.0
                &&& answers(final(self)@, r, c.1, |x: (), y: ()| true)
            }),
    {
        let n: usize = self.shared.symbols.enter(text::chars_of(name));
        let i: usize = match self.place(session.id) {
            None => {
                return Err(self.error(Fault::UnknownSession, Aftermath::Nothing));
            },
            Some(i) => i,
        };
        let j: usize = match prepared::find_prepared(&self.prepared, session.id, n) {
            None => {
                return Err(self.error(Fault::UnknownStatement { name: n }, Aftermath::Nothing));
            },
            Some(j) => j,
        };
        let _: Prepared = self.prepared.remove(j);
        let ghost all = self.sessions@;
        let id: u64 = self.sessions[i].0;
        let mut s: Session = self.take_session(i);
        s.prepared = if s.prepared > 0 {
            s.prepared - 1
        } else {
            0
        };
        self.put_session(i, id, s);
        assert(sessions_view(self.sessions@) =~= sessions_view(all).update(i as int, (id, s@)));
        Ok(())
    }

    /// Binds a portal to a prepared statement and to values of its parameters.
    pub fn bind(
        &mut self,
        session: &SessionHandle,
        portal: String,
        statement: String,
        params: Vec<Value>,
    ) -> (r: Result<(), DbError>)
        requires
            old(self).wf(),
        ensures
            final(self).wf(),
            ({
                let b = binding(
                    old(self)@,
                    session.id,
                    portal@,
                    statement@,
                    value::values_view(params@),
                );
                &&& final(self)@ == b.0
                &&& answers(final(self)@, r, b.1, |x: (), y: ()| true)
            }),
    {
        proof {
            reveal(binding);
        }
        let i: usize = match self.place(session.id) {
            None => {
                return Err(self.error(Fault::UnknownSession, Aftermath::Nothing));
            },
            Some(i) => i,
        };
        let ghost e0 = self@;
        let n: usize = self.shared.symbols.enter(text::chars_of(portal.as_str()));
        let m: usize = self.shared.symbols.enter(text::chars_of(statement.as_str()));
        proof {
            prepared::lemma_taken_len(self@.g.symbols, value::values_view(params@), 0);
        }
        let values: Tuple = prepared::take(&mut self.shared.symbols, &params, 0);
        let ghost e1 = self@;
        assert(e1 =~= (EngineModel { g: SharedModel { symbols: e1.g.symbols, ..e0.g }, ..e0 }));
        let ghost all = self.sessions@;
        let id: u64 = self.sessions[i].0;
        let s: Session = self.take_session(i);
        let (s, r): (Session, Result<(), Fault>) = prepared::bind_portal(
            &self.shared,
            s,
            &self.prepared,
            session.id,
            n,
            m,
            values,
            params.len() as u64,
        );
        self.put_session(i, id, s);
        assert(sessions_view(self.sessions@) =~= sessions_view(all).update(i as int, (id, s@)));
        assert(self@ =~= with_world(e1, i as int, World { g: e1.g, s: s@ }));
        match r {
            Ok(_) => Ok(()),
            Err(f) => Err(self.error(f, Aftermath::Nothing)),
        }
    }

    /// Executes a portal, or goes on where it stopped: at most `max_rows` rows are
    /// handed out, or all if that is 0.
    pub fn execute_portal(&mut self, session: &SessionHandle, portal: &str, max_rows: usize) -> (r:
        Result<PortalBatch, DbError>)
        requires
            old(self).wf(),
        ensures
            final(self).wf(),
            (final(self)@, batch_result(r)) == executing(
                old(self)@,
                session.id,
                portal@,
                max_rows as u64,
            ),
    {
        proof {
            reveal(executing);
        }
        let i: usize = match self.place(session.id) {
            None => {
                return Err(self.error(Fault::UnknownSession, Aftermath::Nothing));
            },
            Some(i) => i,
        };
        let ghost e0 = self@;
        let n: usize = self.shared.symbols.enter(text::chars_of(portal));
        let ghost e1 = self@;
        assert(e1 =~= with_name(e0, portal@));
        let ghost all = self.sessions@;
        let id: u64 = self.sessions[i].0;
        let s: Session = self.take_session(i);
        assert(world_at(e1, i as int) == (World { g: self.shared@, s: s@ }));
        let (s, r): (Session, Result<Part, Failure>) = prepared::run_portal(
            &mut self.shared,
            s,
            &self.prepared,
            session.id,
            n,
            max_rows as u64,
        );
        let ghost w = World { g: self.shared@, s: s@ };
        self.put_session(i, id, s);
        assert(sessions_view(self.sessions@) =~= sessions_view(all).update(i as int, (id, s@)));
        assert(self@ =~= with_world(e1, i as int, w));
        match r {
            Ok(part) => Ok(prepared::render_part(&self.shared.symbols, part)),
            Err(f) => Err(self.error(f.fault, f.aftermath)),
        }
    }

    /// Binds the portal without a name to a prepared statement and executes it. The
    /// messages that wait to be delivered come with the batch.
    pub fn execute_prepared_statement_with_notices(
        &mut self,
        session: &SessionHandle,
        statement: String,
        params: Vec<Value>,
        max_rows: usize,
    ) -> (r: Result<(PortalBatch, Vec<String>), DbError>)
        requires
            old(self).wf(),
        ensures
            final(self).wf(),
            ({
                let b = binding(
                    old(self)@,
                    session.id,
                    ""@,
                    statement@,
                    value::values_view(params@),
                );
                let x = executing(b.0, session.id, ""@, max_rows as u64);
                match b.1 {
                    Err(f) => {
                        &&& final(self)@ == b.0
                        &&& r matches Err(e) && e@ == told(b.0, f)
                    },
                    Ok(_) => match x.1 {
                        Err(m) => {
                            &&& final(self)@ == x.0
                            &&& r matches Err(e) && e@ == m
                        },
                        Ok(m) => {
                            let i = session_place(x.0.sessions, session.id, 0);
                            &&& i is Some
                            &&& final(self)@ == with_world(
                                x.0,
                                i->Some_0,
                                World {
                                    g: x.0.g,
                                    s: session::drained(x.0.sessions[i->Some_0].1),
                                },
                            )
                            &&& r matches Ok((batch, notices)) && batch@ == m && text::texts(
                                notices@,
                            ) == notice_texts(x.0.g.symbols, x.0.sessions[i->Some_0].1.notices)
                        },
                    },
                }
            }),
    {
        let none: String = text::owned("");
        match self.bind(session, none, statement, params) {
            Err(e) => {
                return Err(e);
            },
            Ok(_) => {},
        }
        let ghost bound = self@;
        let batch: PortalBatch = match self.execute_portal(session, "", max_rows) {
            Err(e) => {
                return Err(e);
            },
            Ok(b) => b,
        };
        proof {
            lemma_executing_place(bound, session.id, ""@, max_rows as u64);
        }
        match self.drain_pending_notices(session) {
            Err(e) => Err(e),
            Ok(notices) => Ok((batch, notices)),
        }
    }

    /// Ends a session. Its transaction is rolled back, and what it has prepared is
    /// gone.
    pub fn terminate(&mut self, session: SessionHandle) -> (r: Result<(), DbError>)
        requires
            old(self).wf(),
        ensures
            final(self).wf(),
            final(self)@ == terminated(old(self)@, session.id),
            match r {
                Ok(_) => session_of(old(self)@, session.id) is Some,
                Err(e) => session_of(old(self)@, session.id) is None && e@ == unknown(old(self)@),
            },
    {
        match self.place(session.id) {
            None => Err(self.error(Fault::UnknownSession, Aftermath::Nothing)),
            Some(i) => {
                let ghost all = self.sessions@;
                let s: Session = self.take_session(i);
                let _: Session = session::undo(&mut self.shared, s);
                prepared::forget_all(&mut self.prepared, session.id);
                assert(sessions_view(self.sessions@) =~= sessions_view(all).remove(i as int));
                Ok(())
            },
        }
    }

    /// The identifier of the transaction of a session; the one that stands for none
    /// if there is no transaction.
    pub fn current_txn_id(&self, session: &SessionHandle) -> (r: Result<TxnId, DbError>)
        ensures
            match (r, session_of(self@, session.id)) {
                (Ok(id), Some(s)) => match s.txn {
                    Some(t) => id == t.id,
                    None => id@ == 0,
                },
                (Err(e), None) => e@ == unknown(self@),
                _ => false,
            },
    {
        match self.place(session.id) {
            None => Err(self.error(Fault::UnknownSession, Aftermath::Nothing)),
            Some(i) => {
                assert(self@.sessions[i as int].1 == self.sessions@[i as int].1@);
                match &self.sessions[i].1.txn {
                    Some(t) => Ok(t.id),
                    None => Ok(TxnId::default()),
                }
            },
        }
    }

    /// The isolation level of the transaction of a session, if it is in one.
    pub fn active_isolation(&self, session: &SessionHandle) -> (r: Result<
        Option<IsolationLevel>,
        DbError,
    >)
        ensures
            match (r, session_of(self@, session.id)) {
                (Ok(level), Some(s)) => match s.txn {
                    Some(t) => level == Some(t.modes.isolation),
                    None => level is None,
                },
                (Err(e), None) => e@ == unknown(self@),
                _ => false,
            },
    {
        match self.place(session.id) {
            None => Err(self.error(Fault::UnknownSession, Aftermath::Nothing)),
            Some(i) => {
                assert(self@.sessions[i as int].1 == self.sessions@[i as int].1@);
                match &self.sessions[i].1.txn {
                    Some(t) => Ok(Some(t.modes.isolation)),
                    None => Ok(None),
                }
            },
        }
    }

    /// What is known of a session.
    pub fn session_info(&self, session: &SessionHandle) -> (r: Result<SessionInfo, DbError>)
        ensures
            match (r, session_of(self@, session.id)) {
                (Ok(info), Some(s)) => {
                    &&& info.identity.user@ == symbols::text_at(self@.g.symbols, s.user)
                    &&& info.limits.statement_timeout == s.vars.timeout
                },
                (Err(e), None) => e@ == unknown(self@),
                _ => false,
            },
    {
        match self.place(session.id) {
            None => Err(self.error(Fault::UnknownSession, Aftermath::Nothing)),
            Some(i) => {
                assert(self@.sessions[i as int].1 == self.sessions@[i as int].1@);
                let s: &Session = &self.sessions[i].1;
                Ok(
                    SessionInfo {
                        identity: Identity { user: self.shared.symbols.text(s.user) },
                        limits: SessionLimits { statement_timeout: s.vars.timeout },
                    },
                )
            },
        }
    }

    /// Adds a message that is delivered with the next result of a session.
    pub fn push_notice(
        &mut self,
        session: &SessionHandle,
        message: &str,
    ) -> (r: Result<(), DbError>)
        requires
            old(self).wf(),
        ensures
            final(self).wf(),
            match (r, session_place(old(self)@.sessions, session.id, 0)) {
                (Ok(_), Some(i)) => final(self)@ == with_world(
                    old(self)@,
                    i,
                    session::noted(
                        World {
                            g: SharedModel {
                                symbols: symbols::entered(old(self)@.g.symbols, message@),
                                ..old(self)@.g
                            },
                            s: old(self)@.sessions[i].1,
                        },
                        Notice::Said(symbols::number(old(self)@.g.symbols, message@)),
                    ),
                ),
                (Err(e), None) => e@ == unknown(old(self)@) && final(self)@ == old(self)@,
                _ => false,
            },
    {
        match self.place(session.id) {
            None => Err(self.error(Fault::UnknownSession, Aftermath::Nothing)),
            Some(i) => {
                let ghost all = self.sessions@;
                let n: usize = self.shared.symbols.enter(text::chars_of(message));
                let id: u64 = self.sessions[i].0;
                let mut s: Session = self.take_session(i);
                s.notices.push(Notice::Said(n));
                self.sessions.insert(i, (id, s));
                assert(sessions_view(self.sessions@) =~= sessions_view(all).update(
                    i as int,
                    (id, s@),
                ));
                Ok(())
            },
        }
    }

    /// Takes the messages of a session that wait to be delivered.
    pub fn drain_pending_notices(&mut self, session: &SessionHandle) -> (r: Result<
        Vec<String>,
        DbError,
    >)
        requires
            old(self).wf(),
        ensures
            final(self).wf(),
            match (r, session_place(old(self)@.sessions, session.id, 0)) {
                (Ok(v), Some(i)) => {
                    &&& final(self)@ == with_world(
                        old(self)@,
                        i,
                        World {
                            g: old(self)@.g,
                            s: session::drained(old(self)@.sessions[i].1),
                        },
                    )
                    &&& text::texts(v@) == notice_texts(
                        old(self)@.g.symbols,
                        old(self)@.sessions[i].1.notices,
                    )
                },
                (Err(e), None) => e@ == unknown(old(self)@) && final(self)@ == old(self)@,
                _ => false,
            },
    {
        match self.place(session.id) {
            None => Err(self.error(Fault::UnknownSession, Aftermath::Nothing)),
            Some(i) => {
                let ghost all = self.sessions@;
                let id: u64 = self.sessions[i].0;
                let mut s: Session = self.take_session(i);
                let v: Vec<String> = notice_strings(&self.shared.symbols, &s.notices);
                s.notices = Vec::new();
                self.sessions.insert(i, (id, s));
                assert(sessions_view(self.sessions@) =~= sessions_view(all).update(
                    i as int,
                    (id, s@),
                ));
                Ok(v)
            },
        }
    }

    /// The value of a setting of a session, as `SHOW` gives it; nothing if there is
    /// no such setting.
    pub fn session_variable(&self, session: &SessionHandle, name: &str) -> (r: Result<
        Option<String>,
        DbError,
    >)
        ensures
            match (r, session_of(self@, session.id)) {
                (Ok(v), Some(s)) => match symbols::place(self@.g.symbols, name@) {
                    None => v is None,
                    Some(n) => match settings::shown(
                        self@.g.symbols,
                        s.vars,
                        session::modes_of(s),
                        n,
                    ) {
                        Ok(x) => v matches Some(y) && y@ == x,
                        Err(_) => v is None,
                    },
                },
                (Err(e), None) => e@ == unknown(self@),
                _ => false,
            },
    {
        match self.place(session.id) {
            None => Err(self.error(Fault::UnknownSession, Aftermath::Nothing)),
            Some(i) => {
                assert(self@.sessions[i as int].1 == self.sessions@[i as int].1@);
                let s: &Session = &self.sessions[i].1;
                match self.shared.symbols.find(&text::chars_of(name)) {
                    None => Ok(None),
                    Some(n) => match s.vars.show(
                        &self.shared.symbols,
                        session::current_modes(s),
                        n,
                    ) {
                        Ok(x) => Ok(Some(x)),
                        Err(_) => Ok(None),
                    },
                }
            },
        }
    }

    /// Commits the transaction block of a session, as `COMMIT` does.
    pub fn commit_transaction(&mut self, session: &SessionHandle) -> (r: Result<(), DbError>)
        requires
            old(self).wf(),
        ensures
            final(self).wf(),
            match session_place(old(self)@.sessions, session.id, 0) {
                None => final(self)@ == old(self)@ && (
                    r matches Err(e) && e@ == unknown(old(self)@)
                ),
                Some(i) => {
                    let st = session::commit_step(
                        World { g: old(self)@.g, s: old(self)@.sessions[i].1 },
                    );
                    &&& final(self)@ == with_world(old(self)@, i, st.w)
                    &&& match (r, st.r) {
                        (Ok(_), Ok(_)) => true,
                        (Err(e), Err(f)) => e@ == fault::reported(
                            old(self)@.g.symbols,
                            f.fault,
                            f.aftermath,
                        ),
                        _ => false,
                    }
                },
            },
    {
        match self.place(session.id) {
            None => Err(self.error(Fault::UnknownSession, Aftermath::Nothing)),
            Some(i) => {
                let ghost e0 = self@;
                let ghost all = self.sessions@;
                let id: u64 = self.sessions[i].0;
                let s: Session = self.take_session(i);
                let (s, answer) = session::do_commit(&mut self.shared, s);
                self.sessions.insert(i, (id, s));
                assert(sessions_view(self.sessions@) =~= sessions_view(all).update(
                    i as int,
                    (id, s@),
                ));
                proof {
                    session::lemma_commit_keeps_symbols(
                        World { g: e0.g, s: e0.sessions[i as int].1 },
                    );
                }
                match answer {
                    Ok(_) => Ok(()),
                    Err(f) => Err(self.error(f.fault, f.aftermath)),
                }
            },
        }
    }

    /// A role of the committed state.
    pub fn role(&self, name: &str) -> (r: Option<RoleDescriptor>)
        ensures
            match symbols::place(self@.g.symbols, name@) {
                None => r is None,
                Some(n) => match catalog::role_place(self@.g.committed.roles, n, 0) {
                    None => r is None,
                    Some(i) => {
                        let role = self@.g.committed.roles[i as int];
                        r == Some(
                            (RoleDescriptor {
                                superuser: role.superuser,
                                login: role.login,
                                has_password: role.password is Some,
                            }),
                        )
                    },
                },
            },
    {
        match self.shared.symbols.find(&text::chars_of(name)) {
            None => None,
            Some(n) => match self.shared.committed.role(n) {
                None => None,
                Some(i) => {
                    let role: catalog::Role = self.shared.committed.roles[i];
                    Some(
                        RoleDescriptor {
                            superuser: role.superuser,
                            login: role.login,
                            has_password: role.password.is_some(),
                        },
                    )
                },
            },
        }
    }

    /// Whether the committed state has a schema.
    pub fn has_schema(&self, name: &str) -> (r: bool)
        ensures
            r == match symbols::place(self@.g.symbols, name@) {
                None => false,
                Some(n) => self@.g.committed.schemas.contains(n),
            },
    {
        match self.shared.symbols.find(&text::chars_of(name)) {
            None => false,
            Some(n) => self.shared.committed.has_schema(n),
        }
    }

    /// Whether a statement of a session would see a table.
    pub fn sees_table(&self, session: &SessionHandle, schema: &str, name: &str) -> (r: Result<
        bool,
        DbError,
    >)
        ensures
            match (r, session_of(self@, session.id)) {
                (Ok(b), Some(s)) => b == table_seen(self@, s, schema@, name@),
                (Err(e), None) => e@ == unknown(self@),
                _ => false,
            },
    {
        match self.place(session.id) {
            None => Err(self.error(Fault::UnknownSession, Aftermath::Nothing)),
            Some(i) => {
                assert(self@.sessions[i as int].1 == self.sessions@[i as int].1@);
                let a: Option<usize> = self.shared.symbols.find(&text::chars_of(schema));
                let b: Option<usize> = self.shared.symbols.find(&text::chars_of(name));
                match (a, b) {
                    (Some(x), Some(y)) => match &self.sessions[i].1.txn {
                        Some(t) => Ok(t.work.db.table(x, y).is_some()),
                        None => Ok(self.shared.committed.table(x, y).is_some()),
                    },
                    _ => Ok(false),
                }
            },
        }
    }

    /// Whether a session has defined a type.
    pub fn defines_type(&self, session: &SessionHandle, name: &str) -> (r: Result<bool, DbError>)
        ensures
            match (r, session_of(self@, session.id)) {
                (Ok(b), Some(s)) => b == match symbols::place(self@.g.symbols, name@) {
                    None => false,
                    Some(n) => fields::has_ident(s.vars.defined.types, n),
                },
                (Err(e), None) => e@ == unknown(self@),
                _ => false,
            },
    {
        match self.place(session.id) {
            None => Err(self.error(Fault::UnknownSession, Aftermath::Nothing)),
            Some(i) => {
                assert(self@.sessions[i as int].1 == self.sessions@[i as int].1@);
                match self.shared.symbols.find(&text::chars_of(name)) {
                    None => Ok(false),
                    Some(n) => Ok(fields::ident_in(&self.sessions[i].1.vars.defined.types, n)),
                }
            },
        }
    }

    /// Whether a session has defined a cast from one type to another.
    pub fn defines_cast(&self, session: &SessionHandle, source: &str, target: &str) -> (r: Result<
        bool,
        DbError,
    >)
        ensures
            match (r, session_of(self@, session.id)) {
                (Ok(b), Some(s)) => b == match (
                    symbols::place(self@.g.symbols, source@),
                    symbols::place(self@.g.symbols, target@),
                ) {
                    (Some(x), Some(y)) => defined::has_cast(
                        self@.g.symbols,
                        s.vars.defined.casts,
                        x,
                        y,
                    ),
                    _ => false,
                },
                (Err(e), None) => e@ == unknown(self@),
                _ => false,
            },
    {
        match self.place(session.id) {
            None => Err(self.error(Fault::UnknownSession, Aftermath::Nothing)),
            Some(i) => {
                assert(self@.sessions[i as int].1 == self.sessions@[i as int].1@);
                let a: Option<usize> = self.shared.symbols.find(&text::chars_of(source));
                let b: Option<usize> = self.shared.symbols.find(&text::chars_of(target));
                match (a, b) {
                    (Some(x), Some(y)) => Ok(
                        defined::define_has_cast(
                            &self.shared.symbols,
                            &self.sessions[i].1.vars.defined.casts,
                            x,
                            y,
                        ),
                    ),
                    _ => Ok(false),
                }
            },
        }
    }

    /// Whether a role of the committed state holds a privilege on a table itself.
    pub fn holds_on_table(&self, role: &str, schema: &str, name: &str) -> (r: bool)
        ensures
            r == match (
                symbols::place(self@.g.symbols, role@),
                symbols::place(self@.g.symbols, schema@),
                symbols::place(self@.g.symbols, name@),
            ) {
                (Some(x), Some(y), Some(z)) => catalog::held(
                    self@.g.committed.grants,
                    x,
                    Object::Table(y, z),
                ) != catalog::no_privileges(),
                _ => false,
            },
    {
        let a: Option<usize> = self.shared.symbols.find(&text::chars_of(role));
        let b: Option<usize> = self.shared.symbols.find(&text::chars_of(schema));
        let c: Option<usize> = self.shared.symbols.find(&text::chars_of(name));
        match (a, b, c) {
            (Some(x), Some(y), Some(z)) => self.shared.committed.holds(x, Object::Table(y, z))
                != Privileges {
                select: false,
                insert: false,
                update: false,
                delete: false,
                create: false,
            },
            _ => false,
        }
    }

    /// Sets the clock by which failures are counted.
    pub fn set_clock(&mut self, seconds: u64)
        ensures
            final(self)@ == (EngineModel { clock: seconds, ..old(self)@ }),
    {
        self.clock = seconds;
    }

    /// The transaction manager of the engine.
    pub fn transaction_manager(&self) -> (r: CountingTransactionManager)
        ensures
            r@ == self@.g.manager,
    {
        self.shared.manager
    }

    /// The storage side of the engine.
    pub fn storage_txn(&self) -> (r: &StorageSide)
        ensures
            r@ == self@.g.storage,
    {
        &self.shared.storage
    }

    /// The catalog side of the engine.
    pub fn catalog_txn(&self) -> (r: &CatalogSide)
        ensures
            r@ == self@.g.catalog,
    {
        &self.shared.catalog
    }

    /// What outlives the engine. If the settings ask for it, the failures of its
    /// users are kept at the path that they name.
    pub fn into_store(self) -> (r: Store)
        requires
            self.wf(),
        ensures
            r.wf(),
            r@ == (StoreModel {
                symbols: self@.g.symbols,
                db: self@.g.committed,
                lockouts: auth::with_kept(
                    self@.lockouts,
                    auth::kept_at(self@.g.config),
                    self@.attempts,
                ),
            }),
    {
        let lockouts: Vec<LockoutState> = auth::save_attempts(
            self.lockouts,
            &self.shared.config,
            self.attempts,
        );
        Store { symbols: self.shared.symbols, db: self.shared.committed, lockouts }
    }
}

fn run_text(g: &mut Shared, s: Session, sql: &str) -> (out: (Session, Result<Vec<Reply>, Failure>))
    requires
        symbols::is_table(old(g)@.symbols),
    ensures
        ({
            let run = text_run(World { g: old(g)@, s: s@ }, sql@);
            &&& final(g)@ == run.w.g
            &&& out.0@ == run.w.s
            &&& session::replies_result(out.1) == run.r
            &&& symbols::is_table(final(g)@.symbols)
        }),
{
    proof {
        reveal(text_run);
    }
    let chars: Vec<char> = text::chars_of(sql);
    let tokens: Result<Vec<Tok>, Fault> = lexer::lex(&mut g.symbols, &chars);
    match tokens {
        Err(f) => (session::mark_failed(s), Err(session::fail(f))),
        Ok(ts) => match parser::parse(&ts) {
            Err(f) => (session::mark_failed(s), Err(session::fail(f))),
            Ok(stmts) => {
                let none: Vec<Reply> = Vec::new();
                assert(session::replies_view(none@) =~= Seq::<ReplyModel>::empty());
                session::execute_batch(g, s, &stmts, none)
            },
        },
    }
}

/// The texts of messages.
pub open spec fn notice_texts(t: Seq<Seq<char>>, ns: Seq<Notice>) -> Seq<Seq<char>> {
    ns.map_values(|n: Notice| notice::notice_message(t, n))
}

fn notice_strings(t: &Symbols, ns: &Vec<Notice>) -> (r: Vec<String>)
    ensures
        text::texts(r@) == notice_texts(t@, ns@),
{
    let mut v: Vec<String> = Vec::new();
    let mut i: usize = 0;
    while i < ns.len()
        invariant
            i <= ns.len(),
            v@.len() == i,
            forall|j: int| 0 <= j < i ==> (#[trigger] v@[j])@ == notice::notice_message(
                t@,
                ns@[j],
            ),
        decreases ns.len() - i,
    {
        v.push(ns[i].message(t));
        i += 1;
    }
    assert(text::texts(v@) =~= notice_texts(t@, ns@));
    v
}

/// How an engine is to be made.
pub struct EngineBuilder {
    config: RuntimeConfig,
    manager: CountingTransactionManager,
    storage: StorageSide,
    catalog: CatalogSide,
    store: Store,
    open: bool,
}

pub struct BuilderModel {
    pub config: SecurityConfig,
    pub limits: LimitsConfig,
    pub manager: ManagerModel,
    pub storage: txn::StorageSideModel,
    pub catalog: txn::CatalogSideModel,
    pub store: StoreModel,
    pub open: bool,
}

impl View for EngineBuilder {
    type V = BuilderModel;

    closed spec fn view(&self) -> BuilderModel {
        BuilderModel {
            config: self.config.security,
            limits: self.config.limits,
            manager: self.manager@,
            storage: self.storage@,
            catalog: self.catalog@,
            store: self.store@,
            open: self.open,
        }
    }
}

/// A builder of an engine with nothing in it, with the settings of the development
/// profile.
pub open spec fn fresh_builder(b: BuilderModel, open: bool) -> bool {
    &&& security::profile_settings(SecurityProfile::Development, b.config)
    &&& b.limits == portal::default_limits()
    &&& b.manager == (ManagerModel { last: 0, begins: 0, commits: 0, rollbacks: 0 })
    &&& b.storage is Plain
    &&& b.catalog is Plain
    &&& b.store == empty_store()
    &&& b.open == open
}

/// The engine that a builder makes. It starts with the failures of users that are
/// kept at the path that its settings name, if they ask for it.
pub open spec fn built(b: BuilderModel) -> EngineModel {
    EngineModel {
        g: SharedModel {
            symbols: b.store.symbols,
            committed: b.store.db,
            version: 0,
            manager: b.manager,
            storage: b.storage,
            catalog: b.catalog,
            config: b.config,
            limits: b.limits,
        },
        sessions: Seq::empty(),
        prepared: Seq::empty(),
        next: 1,
        attempts: auth::kept_attempts(b.store.lockouts, auth::kept_at(b.config)),
        lockouts: b.store.lockouts,
        clock: 0,
        open: b.open,
    }
}

impl EngineBuilder {
    pub open spec fn wf(&self) -> bool {
        symbols::is_table(self@.store.symbols)
    }

    fn fresh(open: bool) -> (r: EngineBuilder)
        ensures
            r.wf(),
            fresh_builder(r@, open),
    {
        EngineBuilder {
            config: RuntimeConfig::default(),
            manager: CountingTransactionManager::default(),
            storage: StorageSide::Plain,
            catalog: CatalogSide::Plain,
            store: Store::new(),
            open,
        }
    }

    /// A builder of an engine that lets users start sessions that are no roles.
    pub fn for_testing() -> (r: EngineBuilder)
        ensures
            r.wf(),
            fresh_builder(r@, true),
    {
        EngineBuilder::fresh(true)
    }

    /// A builder of an engine that lets only roles start sessions.
    pub fn new_in_memory() -> (r: EngineBuilder)
        ensures
            r.wf(),
            fresh_builder(r@, false),
    {
        EngineBuilder::fresh(false)
    }

    pub fn with_runtime_config(self, config: RuntimeConfig) -> (r: EngineBuilder)
        requires
            self.wf(),
        ensures
            r.wf(),
            r@ == (BuilderModel { config: config.security, limits: config.limits, ..self@ }),
    {
        EngineBuilder { config, ..self }
    }

    pub fn with_transaction_manager(self, manager: CountingTransactionManager) -> (r: EngineBuilder)
        requires
            self.wf(),
        ensures
            r.wf(),
            r@ == (BuilderModel { manager: manager@, ..self@ }),
    {
        EngineBuilder { manager, ..self }
    }

    pub fn with_storage_txn(self, storage: RecordingSavepointStorageTxnParticipant) -> (r:
        EngineBuilder)
        requires
            self.wf(),
        ensures
            r.wf(),
            r@ == (BuilderModel {
                storage: txn::StorageSideModel::Recording(storage@),
                ..self@
            }),
    {
        EngineBuilder { storage: StorageSide::Recording(storage), ..self }
    }

    pub fn with_catalog_txn(self, catalog: CatalogSide) -> (r: EngineBuilder)
        requires
            self.wf(),
        ensures
            r.wf(),
            r@ == (BuilderModel { catalog: catalog@, ..self@ }),
    {
        EngineBuilder { catalog, ..self }
    }

    /// Makes the engine start from what an earlier one left.
    pub fn with_store(self, store: Store) -> (r: EngineBuilder)
        requires
            self.wf(),
            store.wf(),
        ensures
            r.wf(),
            r@ == (BuilderModel { store: store@, ..self@ }),
    {
        EngineBuilder { store, ..self }
    }

    /// Makes the engine.
    pub fn build(self) -> (r: Result<Engine, DbError>)
        requires
            self.wf(),
        ensures
            r matches Ok(e) && e.wf() && e@ == built(self@),
    {
        let store: Store = self.store;
        let attempts: Vec<Attempts> = auth::load_attempts(&store.lockouts, &self.config.security);
        let e: Engine = Engine {
            shared: Shared {
                symbols: store.symbols,
                committed: store.db,
                version: 0,
                manager: self.manager,
                storage: self.storage,
                catalog: self.catalog,
                config: self.config.security,
                limits: self.config.limits,
            },
            sessions: Vec::new(),
            prepared: Vec::new(),
            next_session: 1,
            attempts,
            lockouts: store.lockouts,
            clock: 0,
            open: self.open,
        };
        assert(e@ =~= built(self@));
        Ok(e)
    }
}

} // verus!
