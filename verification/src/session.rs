//! Sessions and their transactions, and what each statement does to them.

use vstd::prelude::*;
use crate::analyze;
use crate::analyze::Cx;
use crate::analyze::CxModel;
use crate::analyze::Named;
use crate::analyze::Params;
use crate::ast::Block;
use crate::ast::Def;
use crate::ast::Direction;
use crate::ast::Idents;
use crate::ast::IsolationLevel;
use crate::ast::Query;
use crate::ast::Scope;
use crate::ast::Setting;
use crate::ast::Stmt;
use crate::ast::Stmts;
use crate::ast::TxnModes;
use crate::block;
use crate::block::Ran;
use crate::catalog;
use crate::catalog::Db;
use crate::catalog::DbModel;
use crate::change;
use crate::change::Effect;
use crate::datum::Tuple;
use crate::eval;
use crate::fault::Aftermath;
use crate::defined;
use crate::defined::Defined;
use crate::fault::Fault;
use crate::fault::Tag;
use crate::fields::Env;
use crate::fields::Fields;
use crate::notice::Notice;
use crate::portal;
use crate::portal::Content;
use crate::portal::ContentModel;
use crate::portal::LimitsConfig;
use crate::portal::Portal;
use crate::portal::PortalModel;
use crate::returning;
use crate::security::SecurityConfig;
use crate::settings;
use crate::settings::Modes;
use crate::settings::Vars;
use crate::supply;
use crate::symbols;
use crate::symbols::Symbols;
use crate::txn;
use crate::txn::ActiveTransaction;
use crate::txn::CatalogSide;
use crate::txn::CatalogSideModel;
use crate::txn::CommitResult;
use crate::txn::CountingTransactionManager;
use crate::txn::ManagerModel;
use crate::txn::StorageSide;
use crate::txn::StorageSideModel;
use crate::txn::TxnId;

verus! {

/// What all sessions of an engine share: the table of names, what was committed
/// and how often, the sides that take part in transactions, and the settings.
pub struct Shared {
    pub symbols: Symbols,
    pub committed: Db,
    pub version: u64,
    pub manager: CountingTransactionManager,
    pub storage: StorageSide,
    pub catalog: CatalogSide,
    pub config: SecurityConfig,
    pub limits: LimitsConfig,
}

pub struct SharedModel {
    pub symbols: Seq<Seq<char>>,
    pub committed: DbModel,
    pub version: u64,
    pub manager: ManagerModel,
    pub storage: StorageSideModel,
    pub catalog: CatalogSideModel,
    pub config: SecurityConfig,
    pub limits: LimitsConfig,
}

impl View for Shared {
    type V = SharedModel;

    open spec fn view(&self) -> SharedModel {
        SharedModel {
            symbols: self.symbols@,
            committed: self.committed@,
            version: self.version,
            manager: self.manager@,
            storage: self.storage@,
            catalog: self.catalog@,
            config: self.config,
            limits: self.limits,
        }
    }
}

/// What a transaction works on: its own state of the database, whether it has
/// changed it, and which committed state it started from.
pub struct Work {
    pub db: Db,
    pub dirty: bool,
    pub base: u64,
}

pub struct WorkModel {
    pub db: DbModel,
    pub dirty: bool,
    pub base: u64,
}

impl View for Work {
    type V = WorkModel;

    open spec fn view(&self) -> WorkModel {
        WorkModel { db: self.db@, dirty: self.dirty, base: self.base }
    }
}

impl Work {
    pub fn copy(&self) -> (r: Work)
        ensures
            r@ == self@,
    {
        Work { db: self.db.copy(), dirty: self.dirty, base: self.base }
    }
}

/// A savepoint: its name, its identifiers on the two sides, and what a rollback to
/// it brings back. Portals with the number `mark` or a higher one are younger than
/// the savepoint.
pub struct Save {
    pub name: usize,
    pub storage_id: u64,
    pub catalog_id: u64,
    pub work: Work,
    pub vars: Vars,
    pub kept: Vars,
    pub notices: Vec<Notice>,
    pub mark: u64,
}

pub struct SaveModel {
    pub name: usize,
    pub storage_id: u64,
    pub catalog_id: u64,
    pub work: WorkModel,
    pub vars: Vars,
    pub kept: Vars,
    pub notices: Seq<Notice>,
    pub mark: u64,
}

impl View for Save {
    type V = SaveModel;

    open spec fn view(&self) -> SaveModel {
        SaveModel {
            name: self.name,
            storage_id: self.storage_id,
            catalog_id: self.catalog_id,
            work: self.work@,
            vars: self.vars,
            kept: self.kept,
            notices: self.notices@,
            mark: self.mark,
        }
    }
}

/// A transaction of a session. It is explicit if a statement began it. `before` is
/// what was set when it began, and `kept` what stays set when it is committed. It
/// closes the portals with the number `mark` or a higher one when it ends.
pub struct Txn {
    pub id: TxnId,
    pub explicit: bool,
    pub failed: bool,
    pub modes: Modes,
    pub work: Work,
    pub before: Vars,
    pub kept: Vars,
    pub saves: Vec<Save>,
    pub mark: u64,
}

pub struct TxnModel {
    pub id: TxnId,
    pub explicit: bool,
    pub failed: bool,
    pub modes: Modes,
    pub work: WorkModel,
    pub before: Vars,
    pub kept: Vars,
    pub saves: Seq<SaveModel>,
    pub mark: u64,
}

pub open spec fn saves_view(v: Seq<Save>) -> Seq<SaveModel> {
    v.map_values(|s: Save| s@)
}

impl View for Txn {
    type V = TxnModel;

    open spec fn view(&self) -> TxnModel {
        TxnModel {
            id: self.id,
            explicit: self.explicit,
            failed: self.failed,
            modes: self.modes,
            work: self.work@,
            before: self.before,
            kept: self.kept,
            saves: saves_view(self.saves@),
            mark: self.mark,
        }
    }
}

/// A session: who it is for, what was set at its start and what is set now, the
/// messages that wait to be delivered, its transaction, the values of the
/// parameters of the statement that it executes, its portals with the number of the
/// next one, and how many statements it has prepared.
pub struct Session {
    pub user: usize,
    pub initial: Vars,
    pub vars: Vars,
    pub notices: Vec<Notice>,
    pub txn: Option<Txn>,
    pub params: Params,
    pub portals: Vec<Portal>,
    pub next_portal: u64,
    pub prepared: u64,
}

pub struct SessionModel {
    pub user: usize,
    pub initial: Vars,
    pub vars: Vars,
    pub notices: Seq<Notice>,
    pub txn: Option<TxnModel>,
    pub params: Params,
    pub portals: Seq<PortalModel>,
    pub next_portal: u64,
    pub prepared: u64,
}

pub open spec fn txn_view(t: Option<Txn>) -> Option<TxnModel> {
    match t {
        Some(x) => Some(x@),
        None => None,
    }
}

impl View for Session {
    type V = SessionModel;

    open spec fn view(&self) -> SessionModel {
        SessionModel {
            user: self.user,
            initial: self.initial,
            vars: self.vars,
            notices: self.notices@,
            txn: txn_view(self.txn),
            params: self.params,
            portals: portal::portals_view(self.portals@),
            next_portal: self.next_portal,
            prepared: self.prepared,
        }
    }
}

/// An engine and one of its sessions.
pub struct World {
    pub g: SharedModel,
    pub s: SessionModel,
}

/// What a statement answers.
pub enum Answer {
    Command(Tag, u64),
    Rows(Fields, Vec<Tuple>),
    Shown(usize, String),
    Moved(u64),
}

pub enum AnswerModel {
    Command(Tag, u64),
    Rows(Fields, Seq<Tuple>),
    Shown(usize, Seq<char>),
    Moved(u64),
}

impl View for Answer {
    type V = AnswerModel;

    open spec fn view(&self) -> AnswerModel {
        match *self {
            Answer::Command(t, n) => AnswerModel::Command(t, n),
            Answer::Rows(fs, rows) => AnswerModel::Rows(fs, rows@),
            Answer::Shown(name, text) => AnswerModel::Shown(name, text@),
            Answer::Moved(n) => AnswerModel::Moved(n),
        }
    }
}

/// Why a statement failed, and what became of its transaction.
#[derive(Clone, Copy, Debug)]
pub struct Failure {
    pub fault: Fault,
    pub aftermath: Aftermath,
}

/// The failure that a fault is.
pub open spec fn failure(fault: Fault) -> Failure {
    Failure { fault, aftermath: Aftermath::Nothing }
}

pub fn fail(fault: Fault) -> (r: Failure)
    ensures
        r == failure(fault),
{
    Failure { fault, aftermath: Aftermath::Nothing }
}

/// What a statement makes of the world, and its answer.
pub struct Step {
    pub w: World,
    pub r: Result<AnswerModel, Failure>,
}

pub open spec fn answer_view(r: Result<Answer, Failure>) -> Result<AnswerModel, Failure> {
    match r {
        Ok(a) => Ok(a@),
        Err(f) => Err(f),
    }
}

/// Whether what came out is what `st` says.
pub open spec fn stepped(
    g: SharedModel,
    out: (Session, Result<Answer, Failure>),
    st: Step,
) -> bool {
    &&& g == st.w.g
    &&& out.0@ == st.w.s
    &&& answer_view(out.1) == st.r
}

/// A step that answers with the name of its command alone.
pub open spec fn done(w: World, tag: Tag) -> Step {
    Step { w, r: Ok(AnswerModel::Command(tag, 0)) }
}

/// A step that fails.
pub open spec fn stopped(w: World, fault: Fault) -> Step {
    Step { w, r: Err(failure(fault)) }
}

pub open spec fn with_session(w: World, s: SessionModel) -> World {
    World { g: w.g, s }
}

pub open spec fn with_txn(w: World, t: Option<TxnModel>) -> World {
    World { g: w.g, s: SessionModel { txn: t, ..w.s } }
}

pub open spec fn noted(w: World, n: Notice) -> World {
    World { g: w.g, s: SessionModel { notices: w.s.notices.push(n), ..w.s } }
}

/// Whether a session is in a transaction that a statement began.
pub open spec fn in_block(s: SessionModel) -> bool {
    match s.txn {
        Some(t) => t.explicit,
        None => false,
    }
}

pub fn is_in_block(s: &Session) -> (r: bool)
    ensures
        r == in_block(s@),
{
    match &s.txn {
        Some(t) => t.explicit,
        None => false,
    }
}

/// A session whose transaction has just begun. The caller sees to it that there is
/// an identifier left.
pub open spec fn begun(w: World, explicit: bool, modes: Modes) -> World {
    World {
        g: SharedModel { manager: txn::after_begin(w.g.manager), ..w.g },
        s: SessionModel {
            txn: Some(
                TxnModel {
                    id: TxnId { id: (w.g.manager.last + 1) as u64 },
                    explicit,
                    failed: false,
                    modes,
                    work: WorkModel { db: w.g.committed, dirty: false, base: w.g.version },
                    before: w.s.vars,
                    kept: w.s.vars,
                    saves: Seq::empty(),
                    mark: w.s.next_portal,
                },
            ),
            ..w.s
        },
    }
}

fn begin(g: &mut Shared, s: Session, explicit: bool, modes: Modes) -> (out: Session)
    requires
        txn::can_begin(old(g)@.manager),
    ensures
        (World { g: final(g)@, s: out@ }) == begun(World { g: old(g)@, s: s@ }, explicit, modes),
{
    let active: ActiveTransaction = g.manager.begin(modes.isolation);
    let mut s = s;
    let t: Txn = Txn {
        id: active.id,
        explicit,
        failed: false,
        modes,
        work: Work { db: g.committed.copy(), dirty: false, base: g.version },
        before: s.vars.copy(),
        kept: s.vars.copy(),
        saves: Vec::new(),
        mark: s.next_portal,
    };
    assert(t@.saves =~= Seq::<SaveModel>::empty());
    s.txn = Some(t);
    s
}

/// A session whose transaction was rolled back: what was set is as it was before.
pub open spec fn undone(w: World) -> World {
    match w.s.txn {
        None => w,
        Some(t) => World {
            g: SharedModel {
                manager: txn::after_rollback(w.g.manager),
                storage: txn::storage_end(w.g.storage, t.id),
                catalog: txn::catalog_end(w.g.catalog, t.id),
                ..w.g
            },
            s: SessionModel {
                vars: t.before,
                txn: None,
                portals: portal::older(w.s.portals, t.mark),
                ..w.s
            },
        },
    }
}

pub fn undo(g: &mut Shared, s: Session) -> (out: Session)
    ensures
        (World { g: final(g)@, s: out@ }) == undone(World { g: old(g)@, s: s@ }),
{
    let mut s = s;
    match s.txn {
        None => {
            s.txn = None;
        },
        Some(t) => {
            g.manager.rollback(t.id);
            g.storage.end(t.id);
            g.catalog.end(t.id);
            s.vars = t.before;
            portal::close_newer(&mut s.portals, t.mark);
            s.txn = None;
        },
    }
    s
}

/// Whether a transaction has changed a state that is no longer the committed one.
pub open spec fn conflicts(g: SharedModel, t: TxnModel) -> bool {
    t.work.dirty && t.work.base != g.version
}

/// A session whose transaction was committed: its work is the committed state, and
/// what it set for itself alone is as it was before.
pub open spec fn kept(w: World) -> World {
    match w.s.txn {
        None => w,
        Some(t) => World {
            g: SharedModel {
                manager: txn::after_commit(w.g.manager),
                committed: if t.work.dirty {
                    t.work.db
                } else {
                    w.g.committed
                },
                version: if t.work.dirty {
                    txn::wrapping_next(w.g.version)
                } else {
                    w.g.version
                },
                ..w.g
            },
            s: SessionModel {
                vars: t.kept,
                txn: None,
                portals: portal::older(w.s.portals, t.mark),
                ..w.s
            },
        },
    }
}

/// The end of a transaction that is to be committed: a conflict rolls it back.
pub open spec fn finished(w: World) -> (World, Option<Fault>) {
    match w.s.txn {
        None => (w, None),
        Some(t) => if conflicts(w.g, t) {
            (undone(w), Some(Fault::Conflict))
        } else {
            (kept(w), None)
        },
    }
}

pub fn finish(g: &mut Shared, s: Session) -> (out: (Session, Option<Fault>))
    ensures
        (World { g: final(g)@, s: out.0@ }, out.1) == finished(World { g: old(g)@, s: s@ }),
{
    let clash: bool = match &s.txn {
        None => false,
        Some(t) => t.work.dirty && t.work.base != g.version,
    };
    if clash {
        return (undo(g, s), Some(Fault::Conflict));
    }
    let mut s = s;
    match s.txn {
        None => {
            s.txn = None;
        },
        Some(t) => {
            let _: CommitResult = g.manager.commit(t.id);
            if t.work.dirty {
                g.committed = t.work.db;
                g.version = txn::one_more(g.version);
            }
            s.vars = t.kept;
            portal::close_newer(&mut s.portals, t.mark);
            s.txn = None;
        },
    }
    (s, None)
}

/// The state of the database that a statement of a session sees.
pub open spec fn seen(w: World) -> DbModel {
    match w.s.txn {
        Some(t) => t.work.db,
        None => w.g.committed,
    }
}

/// The modes that a statement of a session runs in.
pub open spec fn modes_of(s: SessionModel) -> Modes {
    match s.txn {
        Some(t) => t.modes,
        None => s.vars.modes,
    }
}

pub fn current_modes(s: &Session) -> (r: Modes)
    ensures
        r == modes_of(s@),
{
    match &s.txn {
        Some(t) => t.modes,
        None => s.vars.modes,
    }
}

/// The role that a session acts as.
pub open spec fn acting(s: SessionModel) -> usize {
    match s.vars.acting {
        Some(r) => r,
        None => s.user,
    }
}

pub fn acting_role(s: &Session) -> (r: usize)
    ensures
        r == acting(s@),
{
    match s.vars.acting {
        Some(r) => r,
        None => s.user,
    }
}

/// What a statement of a session is run against.
pub open spec fn context(w: World) -> CxModel {
    change::cx_of(seen(w), w.g.symbols, w.s.vars.path, acting(w.s), w.s.params)
}

/// A session that begins a statement: a transaction that has changed nothing and
/// does not keep to the state it began with sees what was committed last.
pub open spec fn refreshed(w: World) -> World {
    match w.s.txn {
        None => w,
        Some(t) => if !t.work.dirty && t.modes.isolation == IsolationLevel::ReadCommitted {
            with_txn(
                w,
                Some(
                    TxnModel {
                        work: WorkModel {
                            db: w.g.committed,
                            dirty: false,
                            base: w.g.version,
                        },
                        ..t
                    },
                ),
            )
        } else {
            w
        },
    }
}

fn refresh(g: &Shared, s: Session) -> (out: Session)
    ensures
        (World { g: g@, s: out@ }) == refreshed(World { g: g@, s: s@ }),
{
    let mut s = s;
    match s.txn {
        None => {
            s.txn = None;
        },
        Some(t) => {
            let mut t = t;
            if !t.work.dirty && t.modes.isolation == IsolationLevel::ReadCommitted {
                t.work = Work { db: g.committed.copy(), dirty: false, base: g.version };
            }
            s.txn = Some(t);
        },
    }
    s
}

/// `BEGIN`. In a transaction block it does nothing but say so.
#[verifier::opaque]
pub open spec fn begin_step(w: World, tag: Tag, m: TxnModes) -> Step {
    if in_block(w.s) {
        done(noted(w, Notice::AlreadyInTransaction), tag)
    } else if !txn::can_begin(w.g.manager) {
        stopped(w, Fault::IdentifiersExhausted)
    } else {
        match finished(w) {
            (w1, Some(f)) => stopped(w1, f),
            (w1, None) => done(begun(w1, true, settings::with_modes(w1.s.vars.modes, m)), tag),
        }
    }
}

fn do_begin(g: &mut Shared, s: Session, tag: Tag, m: TxnModes) -> (out: (
    Session,
    Result<Answer, Failure>,
))
    ensures
        stepped(final(g)@, out, begin_step(World { g: old(g)@, s: s@ }, tag, m)),
{
    proof {
        reveal(begin_step);
    }
    if is_in_block(&s) {
        let mut s = s;
        s.notices.push(Notice::AlreadyInTransaction);
        return (s, Ok(Answer::Command(tag, 0)));
    }
    if !g.manager.has_identifiers() {
        return (s, Err(fail(Fault::IdentifiersExhausted)));
    }
    let (s, clash): (Session, Option<Fault>) = finish(g, s);
    match clash {
        Some(f) => (s, Err(fail(f))),
        None => {
            let modes: Modes = s.vars.modes.with(m);
            let s: Session = begin(g, s, true, modes);
            (s, Ok(Answer::Command(tag, 0)))
        },
    }
}

/// `COMMIT`. A failed transaction is rolled back.
#[verifier::opaque]
pub open spec fn commit_step(w: World) -> Step {
    match w.s.txn {
        Some(t) => if t.explicit && t.failed {
            done(undone(w), Tag::Rollback)
        } else {
            match finished(w) {
                (w1, Some(f)) => stopped(w1, f),
                (w1, None) => if t.explicit {
                    done(w1, Tag::Commit)
                } else {
                    done(noted(w1, Notice::NoTransaction), Tag::Commit)
                },
            }
        },
        None => done(noted(w, Notice::NoTransaction), Tag::Commit),
    }
}

pub fn do_commit(g: &mut Shared, s: Session) -> (out: (Session, Result<Answer, Failure>))
    ensures
        stepped(final(g)@, out, commit_step(World { g: old(g)@, s: s@ })),
{
    proof {
        reveal(commit_step);
    }
    let block: bool = is_in_block(&s);
    let failed: bool = match &s.txn {
        Some(t) => t.failed,
        None => false,
    };
    if block && failed {
        return (undo(g, s), Ok(Answer::Command(Tag::Rollback, 0)));
    }
    let (s, clash): (Session, Option<Fault>) = finish(g, s);
    match clash {
        Some(f) => {
            return (s, Err(fail(f)));
        },
        None => {},
    }
    let mut s = s;
    if !block {
        s.notices.push(Notice::NoTransaction);
    }
    (s, Ok(Answer::Command(Tag::Commit, 0)))
}

/// `ROLLBACK`.
#[verifier::opaque]
pub open spec fn rollback_step(w: World) -> Step {
    if in_block(w.s) {
        done(undone(w), Tag::Rollback)
    } else {
        done(noted(undone(w), Notice::NoTransaction), Tag::Rollback)
    }
}

fn do_rollback(g: &mut Shared, s: Session) -> (out: (Session, Result<Answer, Failure>))
    ensures
        stepped(final(g)@, out, rollback_step(World { g: old(g)@, s: s@ })),
{
    proof {
        reveal(rollback_step);
    }
    let block: bool = is_in_block(&s);
    let mut s: Session = undo(g, s);
    if !block {
        s.notices.push(Notice::NoTransaction);
    }
    (s, Ok(Answer::Command(Tag::Rollback, 0)))
}

/// `SAVEPOINT`. The storage side comes first; if the catalog side refuses, what
/// the storage side made is released.
#[verifier::opaque]
pub open spec fn savepoint_step(w: World, name: usize) -> Step {
    match w.s.txn {
        Some(t) => if t.explicit {
            let (storage, made) = txn::storage_create(w.g.storage, t.id);
            let w1 = World { g: SharedModel { storage, ..w.g }, s: w.s };
            match made {
                Err(f) => stopped(w1, f),
                Ok(storage_id) => {
                    let (catalog, answer) = txn::catalog_create(w.g.catalog, t.id);
                    let w2 = World { g: SharedModel { catalog, ..w1.g }, s: w.s };
                    match answer {
                        Err(f) => stopped(
                            World {
                                g: SharedModel {
                                    storage: txn::storage_release(storage, t.id, storage_id).0,
                                    ..w2.g
                                },
                                s: w.s,
                            },
                            f,
                        ),
                        Ok(catalog_id) => done(
                            with_txn(
                                w2,
                                Some(
                                    TxnModel {
                                        saves: t.saves.push(
                                            SaveModel {
                                                name,
                                                storage_id,
                                                catalog_id,
                                                work: t.work,
                                                vars: w.s.vars,
                                                kept: t.kept,
                                                notices: w.s.notices,
                                                mark: w.s.next_portal,
                                            },
                                        ),
                                        ..t
                                    },
                                ),
                            ),
                            Tag::Savepoint,
                        ),
                    }
                },
            }
        } else {
            stopped(w, Fault::NoTransaction { tag: Tag::Savepoint })
        },
        None => stopped(w, Fault::NoTransaction { tag: Tag::Savepoint }),
    }
}

fn do_savepoint(g: &mut Shared, s: Session, name: usize) -> (
    out: (Session, Result<Answer, Failure>)
)
    ensures
        stepped(final(g)@, out, savepoint_step(World { g: old(g)@, s: s@ }, name)),
{
    proof {
        reveal(savepoint_step);
    }
    if !is_in_block(&s) {
        return (s, Err(fail(Fault::NoTransaction { tag: Tag::Savepoint })));
    }
    let mut s = s;
    match s.txn {
        None => {
            s.txn = None;
            (s, Err(fail(Fault::NoTransaction { tag: Tag::Savepoint })))
        },
        Some(t) => {
            let mut t = t;
            let storage_id: u64 = match g.storage.create(t.id) {
                Err(f) => {
                    s.txn = Some(t);
                    return (s, Err(fail(f)));
                },
                Ok(id) => id,
            };
            let catalog_id: u64 = match g.catalog.create(t.id) {
                Err(f) => {
                    let _: Result<(), Fault> = g.storage.release(t.id, storage_id);
                    s.txn = Some(t);
                    return (s, Err(fail(f)));
                },
                Ok(id) => id,
            };
            let save: Save = Save {
                name,
                storage_id,
                catalog_id,
                work: t.work.copy(),
                vars: s.vars.copy(),
                kept: t.kept.copy(),
                notices: catalog::copy_values(&s.notices),
                mark: s.next_portal,
            };
            let ghost before = t.saves@;
            t.saves.push(save);
            assert(saves_view(t.saves@) =~= saves_view(before).push(save@));
            s.txn = Some(t);
            (s, Ok(Answer::Command(Tag::Savepoint, 0)))
        },
    }
}

/// The place of the last savepoint of a given name before place `below`.
pub open spec fn save_place(saves: Seq<SaveModel>, name: usize, below: int) -> Option<int>
    decreases below,
{
    if below <= 0 || below > saves.len() {
        None
    } else if saves[below - 1].name == name {
        Some(below - 1)
    } else {
        save_place(saves, name, below - 1)
    }
}

fn find_save(saves: &Vec<Save>, name: usize) -> (r: Option<usize>)
    ensures
        match r {
            Some(i) => i < saves.len() && save_place(
                saves_view(saves@),
                name,
                saves@.len() as int,
            ) == Some(i as int),
            None => save_place(saves_view(saves@), name, saves@.len() as int) is None,
        },
{
    let mut i: usize = saves.len();
    while i > 0
        invariant
            i <= saves.len(),
            save_place(saves_view(saves@), name, saves@.len() as int) == save_place(
                saves_view(saves@),
                name,
                i as int,
            ),
        decreases i,
    {
        if saves[i - 1].name == name {
            return Some(i - 1);
        }
        i -= 1;
    }
    None
}

/// A world in which a savepoint command could not be completed and the whole
/// transaction was rolled back.
pub open spec fn given_up(w: World, fault: Fault) -> Step {
    Step {
        w: undone(w),
        r: Err(Failure { fault, aftermath: Aftermath::TransactionRolledBack }),
    }
}

/// `ROLLBACK TO SAVEPOINT`. What the transaction did since the savepoint, what was
/// set since, and the messages and portals since are gone; the savepoint stays, and
/// the transaction is not failed any more.
#[verifier::opaque]
pub open spec fn rollback_to_step(w: World, name: usize) -> Step {
    match w.s.txn {
        Some(t) => if t.explicit {
            match save_place(t.saves, name, t.saves.len() as int) {
                None => stopped(w, Fault::NoSavepoint { name }),
                Some(i) => {
                    let save = t.saves[i];
                    let (storage, answer) = txn::storage_rollback_to(
                        w.g.storage,
                        t.id,
                        save.storage_id,
                    );
                    let w1 = World { g: SharedModel { storage, ..w.g }, s: w.s };
                    match answer {
                        Err(f) => given_up(w1, f),
                        Ok(_) => match txn::catalog_rollback_to(w.g.catalog, save.catalog_id) {
                            Err(f) => given_up(w1, f),
                            Ok(_) => done(
                                World {
                                    g: w1.g,
                                    s: SessionModel {
                                        vars: save.vars,
                                        notices: save.notices,
                                        portals: portal::older(w.s.portals, save.mark),
                                        txn: Some(
                                            TxnModel {
                                                failed: false,
                                                work: save.work,
                                                kept: save.kept,
                                                saves: t.saves.take(i + 1),
                                                ..t
                                            },
                                        ),
                                        ..w.s
                                    },
                                },
                                Tag::Rollback,
                            ),
                        },
                    }
                },
            }
        } else {
            stopped(w, Fault::NoTransaction { tag: Tag::RollbackTo })
        },
        None => stopped(w, Fault::NoTransaction { tag: Tag::RollbackTo }),
    }
}

fn give_up(g: &mut Shared, s: Session, fault: Fault) -> (out: (Session, Result<Answer, Failure>))
    ensures
        stepped(final(g)@, out, given_up(World { g: old(g)@, s: s@ }, fault)),
{
    let s: Session = undo(g, s);
    (s, Err(Failure { fault, aftermath: Aftermath::TransactionRolledBack }))
}

fn do_rollback_to(g: &mut Shared, s: Session, name: usize) -> (out: (
    Session,
    Result<Answer, Failure>,
))
    ensures
        stepped(final(g)@, out, rollback_to_step(World { g: old(g)@, s: s@ }, name)),
{
    proof {
        reveal(rollback_to_step);
    }
    if !is_in_block(&s) {
        return (s, Err(fail(Fault::NoTransaction { tag: Tag::RollbackTo })));
    }
    let mut s = s;
    match s.txn {
        None => {
            s.txn = None;
            (s, Err(fail(Fault::NoTransaction { tag: Tag::RollbackTo })))
        },
        Some(t) => {
            let mut t = t;
            match find_save(&t.saves, name) {
                None => {
                    s.txn = Some(t);
                    (s, Err(fail(Fault::NoSavepoint { name })))
                },
                Some(i) => {
                    let storage_id: u64 = t.saves[i].storage_id;
                    let catalog_id: u64 = t.saves[i].catalog_id;
                    match g.storage.rollback_to(t.id, storage_id) {
                        Err(f) => {
                            s.txn = Some(t);
                            return give_up(g, s, f);
                        },
                        Ok(_) => {},
                    }
                    match g.catalog.rollback_to(t.id, catalog_id) {
                        Err(f) => {
                            s.txn = Some(t);
                            return give_up(g, s, f);
                        },
                        Ok(_) => {},
                    }
                    let ghost before = t.saves@;
                    t.failed = false;
                    t.work = t.saves[i].work.copy();
                    t.kept = t.saves[i].kept.copy();
                    s.vars = t.saves[i].vars.copy();
                    s.notices = catalog::copy_values(&t.saves[i].notices);
                    portal::close_newer(&mut s.portals, t.saves[i].mark);
                    t.saves.truncate(i + 1);
                    assert(saves_view(t.saves@) =~= saves_view(before).take(i + 1));
                    s.txn = Some(t);
                    (s, Ok(Answer::Command(Tag::Rollback, 0)))
                },
            }
        },
    }
}

/// `RELEASE SAVEPOINT`. What was done since the savepoint stays. If the catalog
/// side refuses, the savepoint is gone all the same.
#[verifier::opaque]
pub open spec fn release_step(w: World, name: usize) -> Step {
    match w.s.txn {
        Some(t) => if t.explicit {
            match save_place(t.saves, name, t.saves.len() as int) {
                None => stopped(w, Fault::NoSavepoint { name }),
                Some(i) => {
                    let save = t.saves[i];
                    let (storage, answer) = txn::storage_release(
                        w.g.storage,
                        t.id,
                        save.storage_id,
                    );
                    let w1 = World { g: SharedModel { storage, ..w.g }, s: w.s };
                    match answer {
                        Err(f) => stopped(w1, f),
                        Ok(_) => {
                            let (catalog, told) = txn::catalog_release(
                                w.g.catalog,
                                t.id,
                                save.catalog_id,
                            );
                            let w2 = World {
                                g: SharedModel { catalog, ..w1.g },
                                s: SessionModel {
                                    txn: Some(TxnModel { saves: t.saves.take(i), ..t }),
                                    ..w.s
                                },
                            };
                            match told {
                                Err(fault) => Step {
                                    w: w2,
                                    r: Err(Failure { fault, aftermath: Aftermath::PartlyReleased }),
                                },
                                Ok(_) => done(w2, Tag::Release),
                            }
                        },
                    }
                },
            }
        } else {
            stopped(w, Fault::NoTransaction { tag: Tag::ReleaseSavepoint })
        },
        None => stopped(w, Fault::NoTransaction { tag: Tag::ReleaseSavepoint }),
    }
}

fn do_release(g: &mut Shared, s: Session, name: usize) -> (out: (Session, Result<Answer, Failure>))
    ensures
        stepped(final(g)@, out, release_step(World { g: old(g)@, s: s@ }, name)),
{
    proof {
        reveal(release_step);
    }
    if !is_in_block(&s) {
        return (s, Err(fail(Fault::NoTransaction { tag: Tag::ReleaseSavepoint })));
    }
    let mut s = s;
    match s.txn {
        None => {
            s.txn = None;
            (s, Err(fail(Fault::NoTransaction { tag: Tag::ReleaseSavepoint })))
        },
        Some(t) => {
            let mut t = t;
            match find_save(&t.saves, name) {
                None => {
                    s.txn = Some(t);
                    (s, Err(fail(Fault::NoSavepoint { name })))
                },
                Some(i) => {
                    let storage_id: u64 = t.saves[i].storage_id;
                    let catalog_id: u64 = t.saves[i].catalog_id;
                    match g.storage.release(t.id, storage_id) {
                        Err(f) => {
                            s.txn = Some(t);
                            return (s, Err(fail(f)));
                        },
                        Ok(_) => {},
                    }
                    let told: Result<(), Fault> = g.catalog.release(t.id, catalog_id);
                    let ghost before = t.saves@;
                    t.saves.truncate(i);
                    assert(saves_view(t.saves@) =~= saves_view(before).take(i as int));
                    s.txn = Some(t);
                    match told {
                        Err(fault) => (
                            s,
                            Err(Failure { fault, aftermath: Aftermath::PartlyReleased }),
                        ),
                        Ok(_) => (s, Ok(Answer::Command(Tag::Release, 0))),
                    }
                },
            }
        },
    }
}

/// `SET` and `RESET` of a setting. `SET LOCAL` holds up to the end of the
/// transaction, and does nothing outside of one.
#[verifier::opaque]
pub open spec fn assign_step(w: World, local: bool, name: usize, value: Setting, tag: Tag) -> Step {
    if local && !in_block(w.s) {
        done(noted(w, Notice::LocalOutsideTransaction), tag)
    } else {
        match settings::assigned_var(w.g.symbols, w.s.initial, w.s.vars, name, value) {
            Err(f) => stopped(w, f),
            Ok(vars) => match w.s.txn {
                None => done(with_session(w, SessionModel { vars, ..w.s }), tag),
                Some(t) => if local {
                    done(with_session(w, SessionModel { vars, ..w.s }), tag)
                } else {
                    match settings::assigned_var(w.g.symbols, w.s.initial, t.kept, name, value) {
                        Err(f) => stopped(w, f),
                        Ok(kept) => done(
                            with_session(
                                w,
                                SessionModel { vars, txn: Some(TxnModel { kept, ..t }), ..w.s },
                            ),
                            tag,
                        ),
                    }
                },
            },
        }
    }
}

fn do_assign(
    g: &mut Shared,
    s: Session,
    local: bool,
    name: usize,
    value: &Setting,
    tag: Tag,
) -> (out: (Session, Result<Answer, Failure>))
    ensures
        stepped(
            final(g)@,
            out,
            assign_step(World { g: old(g)@, s: s@ }, local, name, *value, tag),
        ),
{
    proof {
        reveal(assign_step);
    }
    let mut s = s;
    if local && !is_in_block(&s) {
        s.notices.push(Notice::LocalOutsideTransaction);
        return (s, Ok(Answer::Command(tag, 0)));
    }
    let vars: Vars = match s.vars.assigned(&g.symbols, &s.initial, name, value) {
        Err(f) => {
            return (s, Err(fail(f)));
        },
        Ok(v) => v,
    };
    match s.txn {
        None => {
            s.txn = None;
            s.vars = vars;
        },
        Some(t) => {
            let mut t = t;
            if !local {
                match t.kept.assigned(&g.symbols, &s.initial, name, value) {
                    Err(f) => {
                        s.txn = Some(t);
                        return (s, Err(fail(f)));
                    },
                    Ok(k) => {
                        t.kept = k;
                    },
                }
            }
            s.vars = vars;
            s.txn = Some(t);
        },
    }
    (s, Ok(Answer::Command(tag, 0)))
}

/// `SET TRANSACTION`: the modes of the current transaction block.
#[verifier::opaque]
pub open spec fn set_modes_step(w: World, m: TxnModes) -> Step {
    match w.s.txn {
        Some(t) => if t.explicit {
            done(
                with_txn(w, Some(TxnModel { modes: settings::with_modes(t.modes, m), ..t })),
                Tag::SetVariable,
            )
        } else {
            done(noted(w, Notice::ModesOutsideTransaction), Tag::SetVariable)
        },
        None => done(noted(w, Notice::ModesOutsideTransaction), Tag::SetVariable),
    }
}

fn do_set_modes(s: Session, m: TxnModes) -> (out: (Session, Result<Answer, Failure>))
    ensures
        forall|g: SharedModel| #[trigger]
            stepped(g, out, set_modes_step(World { g, s: s@ }, m)),
{
    proof {
        reveal(set_modes_step);
    }
    let block: bool = is_in_block(&s);
    let mut s = s;
    if block {
        match s.txn {
            Some(t) => {
                let mut t = t;
                t.modes = t.modes.with(m);
                s.txn = Some(t);
            },
            None => {
                s.txn = None;
            },
        }
    } else {
        s.notices.push(Notice::ModesOutsideTransaction);
    }
    (s, Ok(Answer::Command(Tag::SetVariable, 0)))
}

/// Settings with other modes.
pub open spec fn vars_with_modes(v: Vars, m: TxnModes) -> Vars {
    Vars { modes: settings::with_modes(v.modes, m), ..v }
}

/// `SET SESSION CHARACTERISTICS AS TRANSACTION`: the modes of later transactions;
/// where `now`, also those of the current one.
#[verifier::opaque]
pub open spec fn session_modes_step(w: World, m: TxnModes, now: bool, tag: Tag) -> Step {
    done(
        with_session(
            w,
            SessionModel {
                vars: vars_with_modes(w.s.vars, m),
                txn: match w.s.txn {
                    None => None,
                    Some(t) => Some(
                        TxnModel {
                            kept: vars_with_modes(t.kept, m),
                            modes: if now {
                                settings::with_modes(t.modes, m)
                            } else {
                                t.modes
                            },
                            ..t
                        },
                    ),
                },
                ..w.s
            },
        ),
        tag,
    )
}

fn do_session_modes(s: Session, m: TxnModes, now: bool, tag: Tag) -> (out: (
    Session,
    Result<Answer, Failure>,
))
    ensures
        forall|g: SharedModel| #[trigger]
            stepped(g, out, session_modes_step(World { g, s: s@ }, m, now, tag)),
{
    proof {
        reveal(session_modes_step);
    }
    let mut s = s;
    let modes: Modes = s.vars.modes.with(m);
    s.vars.modes = modes;
    match s.txn {
        None => {
            s.txn = None;
        },
        Some(t) => {
            let mut t = t;
            let modes: Modes = t.kept.modes.with(m);
            t.kept.modes = modes;
            if now {
                t.modes = t.modes.with(m);
            }
            s.txn = Some(t);
        },
    }
    (s, Ok(Answer::Command(tag, 0)))
}

/// `SHOW`.
#[verifier::opaque]
pub open spec fn show_step(w: World, name: usize) -> Step {
    match settings::shown(w.g.symbols, w.s.vars, modes_of(w.s), name) {
        Err(f) => stopped(w, f),
        Ok(text) => Step { w, r: Ok(AnswerModel::Shown(name, text)) },
    }
}

/// The answer to a query.
#[verifier::opaque]
pub open spec fn query_answer(cx: CxModel, q: Query) -> Result<AnswerModel, Failure> {
    match analyze::query_fields(cx, Env::Empty, q) {
        Err(f) => Err(failure(f)),
        Ok(fs) => match eval::query_rows(cx, Env::Empty, q) {
            Err(f) => Err(failure(f)),
            Ok(rows) => Ok(AnswerModel::Rows(fs, rows)),
        },
    }
}

/// A query.
pub open spec fn query_step(w: World, q: Query) -> Step {
    Step { w, r: query_answer(context(w), q) }
}

fn do_query(g: &Shared, s: Session, q: &Query) -> (out: (Session, Result<Answer, Failure>))
    ensures
        stepped(g@, out, query_step(World { g: g@, s: s@ }, *q)),
{
    let answer: Result<Answer, Failure> = run_query(g, &s, q);
    (s, answer)
}

fn run_query(g: &Shared, s: &Session, q: &Query) -> (out: Result<Answer, Failure>)
    ensures
        answer_view(out) == query_step(World { g: g@, s: s@ }, *q).r,
{
    proof {
        reveal(query_answer);
    }
    let db: &Db = match &s.txn {
        Some(t) => &t.work.db,
        None => &g.committed,
    };
    let cx: Cx = Cx {
        db,
        symbols: &g.symbols,
        path: &s.vars.path,
        user: acting_role(&s),
        params: &s.params,
        named: &Named::Nil,
    };
    assert(cx@ == context(World { g: g@, s: s@ }));
    let fs: Fields = match analyze::infer_query_fields(&cx, &Env::Empty, q) {
        Err(f) => {
            return Err(fail(f));
        },
        Ok(fs) => fs,
    };
    match eval::eval_query_rows(&cx, &Env::Empty, q) {
        Err(f) => Err(fail(f)),
        Ok(rows) => Ok(Answer::Rows(fs, rows)),
    }
}

/// A new portal of a session.
pub open spec fn with_portal(
    s: SessionModel,
    name: usize,
    statement: Option<usize>,
    params: Params,
    content: ContentModel,
) -> SessionModel {
    SessionModel {
        portals: s.portals.push(
            PortalModel { name, born: s.next_portal, statement, params, content, at: 0 },
        ),
        next_portal: (s.next_portal + 1) as u64,
        ..s
    }
}

/// Adds a portal to a session.
pub fn add_portal(
    s: &mut Session,
    name: usize,
    statement: Option<usize>,
    params: Params,
    content: Content,
)
    requires
        old(s).next_portal < u64::MAX,
    ensures
        final(s)@ == with_portal(old(s)@, name, statement, params, content@),
{
    let p: Portal = Portal { name, born: s.next_portal, statement, params, content, at: 0 };
    let ghost before = s.portals@;
    s.portals.push(p);
    assert(portal::portals_view(s.portals@) =~= portal::portals_view(before).push(p@));
    s.next_portal = s.next_portal + 1;
}

/// What keeps a session from getting a new cursor. A cursor takes the place of a
/// prepared statement and of a portal.
pub open spec fn cursor_fault(w: World, name: usize) -> Option<Fault> {
    if w.s.prepared + portal::cursor_count(w.s.portals) >= w.g.limits.max_prepared_statements {
        Some(Fault::TooManyStatements)
    } else if w.s.portals.len() >= w.g.limits.max_portals {
        Some(Fault::TooManyPortals)
    } else if portal::portal_place(w.s.portals, name, 0) is Some {
        Some(Fault::CursorExists { name })
    } else if w.s.next_portal == u64::MAX {
        Some(Fault::IdentifiersExhausted)
    } else {
        None
    }
}

fn check_cursor(g: &Shared, s: &Session, name: usize) -> (r: Option<Fault>)
    ensures
        r == cursor_fault(World { g: g@, s: s@ }, name),
{
    let taken: u128 = s.prepared as u128 + portal::count_cursors(&s.portals) as u128;
    if taken >= g.limits.max_prepared_statements as u128 {
        Some(Fault::TooManyStatements)
    } else if s.portals.len() as u128 >= g.limits.max_portals as u128 {
        Some(Fault::TooManyPortals)
    } else if portal::find_portal(&s.portals, name).is_some() {
        Some(Fault::CursorExists { name })
    } else if s.next_portal == u64::MAX {
        Some(Fault::IdentifiersExhausted)
    } else {
        None
    }
}

/// `DECLARE CURSOR`. The rows are those that the query has now.
#[verifier::opaque]
pub open spec fn declare_step(w: World, name: usize, query: Option<Box<Query>>) -> Step {
    if !in_block(w.s) {
        stopped(w, Fault::NoTransaction { tag: Tag::DeclareCursor })
    } else {
        match query {
            None => stopped(w, Fault::CursorWithoutRows),
            Some(q) => match cursor_fault(w, name) {
                Some(f) => stopped(w, f),
                None => match query_answer(context(w), *q) {
                    Ok(AnswerModel::Rows(fs, rows)) => done(
                        with_session(
                            w,
                            with_portal(
                                w.s,
                                name,
                                None,
                                Params::Missing,
                                ContentModel::Rows(fs, rows),
                            ),
                        ),
                        Tag::DeclareCursor,
                    ),
                    Ok(_) => stopped(w, Fault::CursorWithoutRows),
                    Err(f) => Step { w, r: Err(f) },
                },
            },
        }
    }
}

fn do_declare(g: &Shared, s: Session, name: usize, query: &Option<Box<Query>>) -> (out: (
    Session,
    Result<Answer, Failure>,
))
    ensures
        stepped(g@, out, declare_step(World { g: g@, s: s@ }, name, *query)),
{
    proof {
        reveal(declare_step);
    }
    if !is_in_block(&s) {
        return (s, Err(fail(Fault::NoTransaction { tag: Tag::DeclareCursor })));
    }
    match query {
        None => (s, Err(fail(Fault::CursorWithoutRows))),
        Some(q) => {
            match check_cursor(g, &s, name) {
                Some(f) => {
                    return (s, Err(fail(f)));
                },
                None => {},
            }
            match run_query(g, &s, q) {
                Ok(Answer::Rows(fs, rows)) => {
                    let mut s = s;
                    add_portal(&mut s, name, None, Params::Missing, Content::Rows(fs, rows));
                    (s, Ok(Answer::Command(Tag::DeclareCursor, 0)))
                },
                Ok(_) => (s, Err(fail(Fault::CursorWithoutRows))),
                Err(f) => (s, Err(f)),
            }
        },
    }
}

/// A session in which the portal at place `i` is at another position.
pub open spec fn repositioned(s: SessionModel, i: int, at: u128) -> SessionModel {
    SessionModel { portals: s.portals.update(i, PortalModel { at, ..s.portals[i] }), ..s }
}

/// `FETCH`, and `MOVE`, which answers with the number of rows alone.
#[verifier::opaque]
pub open spec fn fetch_step(w: World, name: usize, d: Direction, silent: bool) -> Step {
    match portal::cursor_place(w.s.portals, name) {
        None => stopped(w, Fault::NoCursor { name }),
        Some(i) => match w.s.portals[i].content {
            ContentModel::Rows(fs, rows) => {
                let m = portal::motion(rows.len() as int, w.s.portals[i].at as int, d);
                let out = portal::handed_out(rows, m);
                Step {
                    w: with_session(w, repositioned(w.s, i, m.at as u128)),
                    r: Ok(
                        if silent {
                            AnswerModel::Moved(out.len() as u64)
                        } else {
                            AnswerModel::Rows(fs, out)
                        },
                    ),
                }
            },
            _ => stopped(w, Fault::NoCursor { name }),
        },
    }
}

fn do_fetch(s: Session, name: usize, d: Direction, silent: bool) -> (out: (
    Session,
    Result<Answer, Failure>,
))
    ensures
        forall|g: SharedModel| #[trigger]
            stepped(g, out, fetch_step(World { g, s: s@ }, name, d, silent)),
{
    proof {
        reveal(fetch_step);
    }
    let i: usize = match portal::find_cursor(&s.portals, name) {
        None => {
            return (s, Err(fail(Fault::NoCursor { name })));
        },
        Some(i) => i,
    };
    let mut s = s;
    let ghost before = s.portals@;
    assert(portal::portals_view(before)[i as int] == before[i as int]@);
    let mut p: Portal = s.portals.remove(i);
    let ghost p0 = p@;
    let r: Result<Answer, Failure> = match &p.content {
        Content::Rows(fs, rows) => {
            let (out, at): (Vec<Tuple>, u128) = portal::advance(rows, p.at, d);
            let answer: Answer = if silent {
                Answer::Moved(out.len() as u64)
            } else {
                Answer::Rows(fs.copy(), out)
            };
            p.at = at;
            Ok(answer)
        },
        _ => Err(fail(Fault::NoCursor { name })),
    };
    let ghost p1 = p@;
    s.portals.insert(i, p);
    assert(portal::portals_view(s.portals@) =~= portal::portals_view(before).update(
        i as int,
        p1,
    ));
    assert(portal::portals_view(before).update(i as int, p0) =~= portal::portals_view(before));
    (s, r)
}

/// `CLOSE` of a cursor.
#[verifier::opaque]
pub open spec fn close_step(w: World, name: usize) -> Step {
    match portal::cursor_place(w.s.portals, name) {
        None => stopped(w, Fault::NoCursor { name }),
        Some(i) => done(
            with_session(w, SessionModel { portals: w.s.portals.remove(i), ..w.s }),
            Tag::CloseCursor,
        ),
    }
}

fn do_close(s: Session, name: usize) -> (out: (Session, Result<Answer, Failure>))
    ensures
        forall|g: SharedModel| #[trigger] stepped(g, out, close_step(World { g, s: s@ }, name)),
{
    proof {
        reveal(close_step);
    }
    match portal::find_cursor(&s.portals, name) {
        None => (s, Err(fail(Fault::NoCursor { name }))),
        Some(i) => {
            let mut s = s;
            let ghost before = s.portals@;
            let _: Portal = s.portals.remove(i);
            assert(portal::portals_view(s.portals@) =~= portal::portals_view(before).remove(
                i as int,
            ));
            (s, Ok(Answer::Command(Tag::CloseCursor, 0)))
        },
    }
}

/// A statement that changes the database, in a transaction of its session.
pub open spec fn change_in_txn(w: World, tag: Tag, stmt: Stmt) -> Step {
    match w.s.txn {
        None => stopped(w, Fault::NoTransaction { tag }),
        Some(t) => match (
            returning::returned(context(w), stmt),
            change::changed(context(w), w.g.config, stmt),
        ) {
            (Err(f), _) => stopped(w, f),
            (_, Err(f)) => stopped(w, f),
            (Ok(out), Ok(c)) => Step {
                w: with_session(
                    w,
                    SessionModel {
                        notices: w.s.notices + c.notices,
                        txn: Some(
                            TxnModel {
                                work: WorkModel { db: c.db, dirty: true, base: t.work.base },
                                ..t
                            },
                        ),
                        ..w.s
                    },
                ),
                r: Ok(
                    match out {
                        None => AnswerModel::Command(tag, c.count),
                        Some((fs, rows)) => AnswerModel::Rows(fs, rows),
                    },
                ),
            },
        },
    }
}

/// A statement that changes the database. Outside of a transaction it begins one
/// of its own.
#[verifier::opaque]
pub open spec fn change_step(w: World, tag: Tag, stmt: Stmt) -> Step {
    if modes_of(w.s).read_only {
        stopped(w, Fault::ReadOnly { tag })
    } else if w.s.txn is Some {
        change_in_txn(w, tag, stmt)
    } else if txn::can_begin(w.g.manager) {
        change_in_txn(begun(w, false, w.s.vars.modes), tag, stmt)
    } else {
        stopped(w, Fault::IdentifiersExhausted)
    }
}

fn extend_notices(v: &mut Vec<Notice>, more: &Vec<Notice>)
    ensures
        final(v)@ == old(v)@ + more@,
{
    let ghost before = v@;
    let mut i: usize = 0;
    while i < more.len()
        invariant
            i <= more.len(),
            v@ =~= before + more@.take(i as int),
        decreases more.len() - i,
    {
        v.push(more[i]);
        i += 1;
    }
    assert(more@.take(i as int) =~= more@);
}

fn do_change_in_txn(g: &mut Shared, s: Session, tag: Tag, stmt: &Stmt) -> (out: (
    Session,
    Result<Answer, Failure>,
))
    ensures
        stepped(final(g)@, out, change_in_txn(World { g: old(g)@, s: s@ }, tag, *stmt)),
{
    let ghost w = World { g: g@, s: s@ };
    let role: usize = acting_role(&s);
    let mut s = s;
    match s.txn {
        None => {
            s.txn = None;
            (s, Err(fail(Fault::NoTransaction { tag })))
        },
        Some(t) => {
            let mut t = t;
            let given: Result<Option<(Fields, Vec<Tuple>)>, Fault> = {
                let cx: Cx = Cx {
                    db: &t.work.db,
                    symbols: &g.symbols,
                    path: &s.vars.path,
                    user: role,
                    params: &s.params,
                    named: &Named::Nil,
                };
                assert(cx@ == context(w));
                returning::find_returned(&cx, stmt)
            };
            let out: Option<(Fields, Vec<Tuple>)> = match given {
                Err(f) => {
                    s.txn = Some(t);
                    return (s, Err(fail(f)));
                },
                Ok(out) => out,
            };
            let effect: Result<Effect, Fault> = change::apply(
                &mut t.work.db,
                &g.symbols,
                &s.vars.path,
                role,
                &s.params,
                &g.config,
                stmt,
            );
            match effect {
                Err(f) => {
                    s.txn = Some(t);
                    (s, Err(fail(f)))
                },
                Ok(e) => {
                    t.work.dirty = true;
                    s.txn = Some(t);
                    extend_notices(&mut s.notices, &e.notices);
                    match out {
                        None => (s, Ok(Answer::Command(tag, e.count))),
                        Some((fs, rows)) => (s, Ok(Answer::Rows(fs, rows))),
                    }
                },
            }
        },
    }
}

fn do_change(g: &mut Shared, s: Session, tag: Tag, stmt: &Stmt) -> (out: (
    Session,
    Result<Answer, Failure>,
))
    ensures
        stepped(final(g)@, out, change_step(World { g: old(g)@, s: s@ }, tag, *stmt)),
{
    proof {
        reveal(change_step);
    }
    if current_modes(&s).read_only {
        return (s, Err(fail(Fault::ReadOnly { tag })));
    }
    if s.txn.is_some() {
        return do_change_in_txn(g, s, tag, stmt);
    }
    if g.manager.has_identifiers() {
        let modes: Modes = s.vars.modes;
        let s: Session = begin(g, s, false, modes);
        do_change_in_txn(g, s, tag, stmt)
    } else {
        (s, Err(fail(Fault::IdentifiersExhausted)))
    }
}

/// `SET SESSION AUTHORIZATION`: a session acts as the role that started it or, if that
/// is a superuser, as any role.
#[verifier::opaque]
pub open spec fn act_step(w: World, role: Option<usize>, tag: Tag) -> Step {
    let fault = match role {
        None => None,
        Some(r) => if r == w.s.user {
            None
        } else if catalog::role_place(seen(w).roles, r, 0) is None {
            Some(Fault::RoleMissing { name: r })
        } else if !catalog::may_administer(seen(w).roles, w.s.user) {
            Some(Fault::NotSuperuser)
        } else {
            None
        },
    };
    match fault {
        Some(f) => stopped(w, f),
        None => done(
            with_session(
                w,
                SessionModel {
                    vars: Vars { acting: role, ..w.s.vars },
                    txn: match w.s.txn {
                        None => None,
                        Some(t) => Some(
                            TxnModel { kept: Vars { acting: role, ..t.kept }, ..t },
                        ),
                    },
                    ..w.s
                },
            ),
            tag,
        ),
    }
}

fn do_act(g: &Shared, s: Session, role: Option<usize>, tag: Tag) -> (out: (
    Session,
    Result<Answer, Failure>,
))
    ensures
        stepped(g@, out, act_step(World { g: g@, s: s@ }, role, tag)),
{
    proof {
        reveal(act_step);
    }
    let fault: Option<Fault> = {
        let db: &Db = match &s.txn {
            Some(t) => &t.work.db,
            None => &g.committed,
        };
        match role {
            None => None,
            Some(r) => if r == s.user {
                None
            } else if db.role(r).is_none() {
                Some(Fault::RoleMissing { name: r })
            } else if !db.administers(s.user) {
                Some(Fault::NotSuperuser)
            } else {
                None
            },
        }
    };
    match fault {
        Some(f) => (s, Err(fail(f))),
        None => {
            let mut s = s;
            s.vars.acting = role;
            match s.txn {
                None => {
                    s.txn = None;
                },
                Some(t) => {
                    let mut t = t;
                    t.kept.acting = role;
                    s.txn = Some(t);
                },
            }
            (s, Ok(Answer::Command(tag, 0)))
        },
    }
}

/// The definition or the end of a definition of a session.
#[verifier::opaque]
pub open spec fn define_step(w: World, def: Def) -> Step {
    let tag = defined::tag(def);
    if modes_of(w.s).read_only {
        stopped(w, Fault::ReadOnly { tag })
    } else {
        match defined::after(w.g.symbols, w.s.vars.defined, def) {
            Err(f) => stopped(w, f),
            Ok(d) => done(
                with_session(
                    w,
                    SessionModel {
                        vars: Vars { defined: d, ..w.s.vars },
                        notices: w.s.notices + defined::said(
                            w.g.symbols,
                            w.s.vars.defined,
                            def,
                        ),
                        txn: match w.s.txn {
                            None => None,
                            Some(t) => Some(
                                TxnModel { kept: Vars { defined: d, ..t.kept }, ..t },
                            ),
                        },
                        ..w.s
                    },
                ),
                tag,
            ),
        }
    }
}

fn do_define(g: &Shared, s: Session, def: &Def) -> (out: (Session, Result<Answer, Failure>))
    ensures
        stepped(g@, out, define_step(World { g: g@, s: s@ }, *def)),
{
    proof {
        reveal(define_step);
    }
    let tag: Tag = defined::define_tag(def);
    if current_modes(&s).read_only {
        return (s, Err(fail(Fault::ReadOnly { tag })));
    }
    match defined::define_after(&g.symbols, &s.vars.defined, def) {
        Err(f) => (s, Err(fail(f))),
        Ok(d) => {
            let said: Vec<Notice> = defined::say(&g.symbols, &s.vars.defined, def);
            let mut s = s;
            extend_notices(&mut s.notices, &said);
            proof {
                defined::lemma_duplicate(d);
            }
            let kept: Defined = defined::define_duplicate(&d);
            s.vars.defined = d;
            match s.txn {
                None => {
                    s.txn = None;
                },
                Some(t) => {
                    let mut t = t;
                    t.kept.defined = kept;
                    s.txn = Some(t);
                },
            }
            (s, Ok(Answer::Command(tag, 0)))
        },
    }
}

/// The messages with the given texts, behind others.
pub open spec fn with_said(v: Seq<Notice>, said: Idents) -> Seq<Notice>
    decreases said,
{
    match said {
        Idents::Nil => v,
        Idents::Cons(s, rest) => with_said(v.push(Notice::Said(s)), *rest),
    }
}

fn add_said(v: Vec<Notice>, said: &Idents) -> (r: Vec<Notice>)
    ensures
        r@ == with_said(v@, *said),
    decreases said,
{
    match said {
        Idents::Nil => v,
        Idents::Cons(s, rest) => {
            let mut v = v;
            v.push(Notice::Said(*s));
            add_said(v, rest)
        },
    }
}

/// A block of code.
#[verifier::opaque]
pub open spec fn block_step(w: World, b: Block) -> Step {
    match block::block(context(w), b) {
        Err(f) => stopped(w, f),
        Ok(ran) => done(
            with_session(
                w,
                SessionModel { notices: with_said(w.s.notices, ran.said), ..w.s },
            ),
            Tag::Do,
        ),
    }
}

fn do_block(g: &Shared, s: Session, b: &Block) -> (out: (Session, Result<Answer, Failure>))
    ensures
        stepped(g@, out, block_step(World { g: g@, s: s@ }, *b)),
{
    proof {
        reveal(block_step);
    }
    let ran: Result<Ran, Fault> = {
        let db: &Db = match &s.txn {
            Some(t) => &t.work.db,
            None => &g.committed,
        };
        let cx: Cx = Cx {
            db,
            symbols: &g.symbols,
            path: &s.vars.path,
            user: acting_role(&s),
            params: &s.params,
            named: &Named::Nil,
        };
        assert(cx@ == context(World { g: g@, s: s@ }));
        block::run_block(&cx, b)
    };
    match ran {
        Err(f) => (s, Err(fail(f))),
        Ok(ran) => {
            let mut s = s;
            let notices: Vec<Notice> = add_said(s.notices, &ran.said);
            s.notices = notices;
            (s, Ok(Answer::Command(Tag::Do, 0)))
        },
    }
}

/// Whether a session is in a transaction block that has failed.
pub open spec fn is_failed(s: SessionModel) -> bool {
    match s.txn {
        Some(t) => t.explicit && t.failed,
        None => false,
    }
}

/// What a failed transaction block still takes: the ways out of it.
pub open spec fn is_way_out(stmt: Stmt) -> bool {
    stmt is Commit || stmt is Rollback || stmt is RollbackTo
}

/// What a statement does, and what it answers.
#[verifier::opaque]
pub open spec fn run(w: World, stmt: Stmt) -> Step {
    if is_failed(w.s) && !is_way_out(stmt) {
        stopped(w, Fault::Aborted)
    } else {
        match stmt {
            Stmt::Query(q) => query_step(w, *q),
            Stmt::Begin(tag, m) => begin_step(w, tag, m),
            Stmt::Commit => commit_step(w),
            Stmt::Rollback => rollback_step(w),
            Stmt::Savepoint(name) => savepoint_step(w, name),
            Stmt::RollbackTo(name) => rollback_to_step(w, name),
            Stmt::Release(name) => release_step(w, name),
            Stmt::Assign(local, name, value) => assign_step(
                w,
                local,
                name,
                value,
                Tag::SetVariable,
            ),
            Stmt::Reset(name) => assign_step(w, false, name, Setting::Default, Tag::Reset),
            Stmt::SetModes(Scope::Transaction, m) => set_modes_step(w, m),
            Stmt::SetModes(Scope::Session, m) => session_modes_step(w, m, false, Tag::SetVariable),
            Stmt::ResetModes(m) => session_modes_step(w, m, true, Tag::Reset),
            Stmt::SetConstraints => done(w, Tag::SetConstraints),
            Stmt::ActAs(role, tag) => act_step(w, role, tag),
            Stmt::Define(def) => define_step(w, *def),
            Stmt::Do(b) => block_step(w, *b),
            Stmt::EndPrepared(name) => stopped(w, Fault::UndefinedPrepared { name }),
            Stmt::Show(name) => show_step(w, name),
            Stmt::Declare(name, q) => declare_step(w, name, q),
            Stmt::Fetch(name, d) => fetch_step(w, name, d, false),
            Stmt::Move(name, d) => fetch_step(w, name, d, true),
            Stmt::Close(name) => close_step(w, name),
            _ => match change::change_tag(stmt) {
                Some(tag) => change_step(w, tag, stmt),
                None => done(w, Tag::Select),
            },
        }
    }
}

fn do_run(g: &mut Shared, s: Session, stmt: &Stmt) -> (out: (Session, Result<Answer, Failure>))
    ensures
        stepped(final(g)@, out, run(World { g: old(g)@, s: s@ }, *stmt)),
{
    proof {
        reveal(run);
        reveal(show_step);
    }
    let failed: bool = match &s.txn {
        Some(t) => t.explicit && t.failed,
        None => false,
    };
    let way_out: bool = match stmt {
        Stmt::Commit => true,
        Stmt::Rollback => true,
        Stmt::RollbackTo(_) => true,
        _ => false,
    };
    if failed && !way_out {
        return (s, Err(fail(Fault::Aborted)));
    }
    match stmt {
        Stmt::Query(q) => do_query(g, s, q),
        Stmt::Begin(tag, m) => do_begin(g, s, *tag, *m),
        Stmt::Commit => do_commit(g, s),
        Stmt::Rollback => do_rollback(g, s),
        Stmt::Savepoint(name) => do_savepoint(g, s, *name),
        Stmt::RollbackTo(name) => do_rollback_to(g, s, *name),
        Stmt::Release(name) => do_release(g, s, *name),
        Stmt::Assign(local, name, value) => do_assign(g, s, *local, *name, value, Tag::SetVariable),
        Stmt::Reset(name) => do_assign(g, s, false, *name, &Setting::Default, Tag::Reset),
        Stmt::SetModes(Scope::Transaction, m) => do_set_modes(s, *m),
        Stmt::SetModes(Scope::Session, m) => do_session_modes(s, *m, false, Tag::SetVariable),
        Stmt::ResetModes(m) => do_session_modes(s, *m, true, Tag::Reset),
        Stmt::SetConstraints => (s, Ok(Answer::Command(Tag::SetConstraints, 0))),
        Stmt::ActAs(role, tag) => do_act(g, s, *role, *tag),
        Stmt::Define(def) => do_define(g, s, def),
        Stmt::Do(b) => do_block(g, s, b),
        Stmt::EndPrepared(name) => (s, Err(fail(Fault::UndefinedPrepared { name: *name }))),
        Stmt::Show(name) => {
            let text: Result<String, Fault> = s.vars.show(&g.symbols, current_modes(&s), *name);
            match text {
                Err(f) => (s, Err(fail(f))),
                Ok(text) => (s, Ok(Answer::Shown(*name, text))),
            }
        },
        Stmt::Declare(name, q) => do_declare(g, s, *name, q),
        Stmt::Fetch(name, d) => do_fetch(s, *name, *d, false),
        Stmt::Move(name, d) => do_fetch(s, *name, *d, true),
        Stmt::Close(name) => do_close(s, *name),
        _ => match change::tag_of_change(stmt) {
            Some(tag) => do_change(g, s, tag, stmt),
            None => (s, Ok(Answer::Command(Tag::Select, 0))),
        },
    }
}

/// A session after one of its statements failed: a transaction block is failed.
pub open spec fn failed(s: SessionModel) -> SessionModel {
    match s.txn {
        None => s,
        Some(t) => SessionModel { txn: Some(TxnModel { failed: true, ..t }), ..s },
    }
}

/// Marks the transaction of a session as failed.
pub fn mark_failed(s: Session) -> (out: Session)
    ensures
        out@ == failed(s@),
{
    let mut s = s;
    match s.txn {
        None => {
            s.txn = None;
        },
        Some(t) => {
            let mut t = t;
            t.failed = true;
            s.txn = Some(t);
        },
    }
    s
}

/// One statement of a session.
pub open spec fn step(w: World, stmt: Stmt) -> Step {
    let st = run(refreshed(w), stmt);
    match st.r {
        Ok(_) => st,
        Err(f) => Step { w: with_session(st.w, failed(st.w.s)), r: Err(f) },
    }
}

/// Executes one statement of a session.
pub fn execute(g: &mut Shared, s: Session, stmt: &Stmt) -> (out: (Session, Result<Answer, Failure>))
    ensures
        stepped(final(g)@, out, step(World { g: old(g)@, s: s@ }, *stmt)),
{
    let s: Session = refresh(g, s);
    let (s, r): (Session, Result<Answer, Failure>) = do_run(g, s, stmt);
    match r {
        Ok(a) => (s, Ok(a)),
        Err(f) => (mark_failed(s), Err(f)),
    }
}

/// No statement enters anything in the table of names.
#[verifier::rlimit(60)]
#[verifier::spinoff_prover]
pub proof fn lemma_step_keeps_symbols(w: World, stmt: Stmt)
    ensures
        step(w, stmt).w.g.symbols == w.g.symbols,
{
    reveal(run);
    match stmt {
        Stmt::Begin(_, _) => {
            reveal(begin_step);
        },
        Stmt::Commit => {
            reveal(commit_step);
        },
        Stmt::Rollback => {
            reveal(rollback_step);
        },
        Stmt::Savepoint(_) => {
            reveal(savepoint_step);
        },
        Stmt::RollbackTo(_) => {
            reveal(rollback_to_step);
        },
        Stmt::Release(_) => {
            reveal(release_step);
        },
        Stmt::Assign(_, _, _) => {
            reveal(assign_step);
        },
        Stmt::Reset(_) => {
            reveal(assign_step);
        },
        Stmt::SetModes(_, _) => {
            reveal(set_modes_step);
            reveal(session_modes_step);
        },
        Stmt::ResetModes(_) => {
            reveal(session_modes_step);
        },
        Stmt::Show(_) => {
            reveal(show_step);
        },
        Stmt::ActAs(_, _) => {
            reveal(act_step);
        },
        Stmt::Define(_) => {
            reveal(define_step);
        },
        Stmt::Do(_) => {
            reveal(block_step);
        },
        Stmt::Declare(_, _) => {
            reveal(declare_step);
        },
        Stmt::Fetch(_, _) => {
            reveal(fetch_step);
        },
        Stmt::Move(_, _) => {
            reveal(fetch_step);
        },
        Stmt::Close(_) => {
            reveal(close_step);
        },
        _ => {
            reveal(change_step);
        },
    }
}

pub proof fn lemma_commit_keeps_symbols(w: World)
    ensures
        commit_step(w).w.g.symbols == w.g.symbols,
{
    reveal(commit_step);
}

/// What a client gets: messages and answers.
pub enum Reply {
    Notice(Notice),
    Answer(Answer),
}

pub enum ReplyModel {
    Notice(Notice),
    Answer(AnswerModel),
}

impl View for Reply {
    type V = ReplyModel;

    open spec fn view(&self) -> ReplyModel {
        match *self {
            Reply::Notice(n) => ReplyModel::Notice(n),
            Reply::Answer(a) => ReplyModel::Answer(a@),
        }
    }
}

pub open spec fn replies_view(v: Seq<Reply>) -> Seq<ReplyModel> {
    v.map_values(|r: Reply| r@)
}

/// Messages as replies.
pub open spec fn notice_replies(ns: Seq<Notice>) -> Seq<ReplyModel> {
    ns.map_values(|n: Notice| ReplyModel::Notice(n))
}

/// A session all of whose messages were delivered.
pub open spec fn drained(s: SessionModel) -> SessionModel {
    SessionModel { notices: Seq::empty(), ..s }
}

/// What statements sent together make of the world, and what they answer.
pub struct Run {
    pub w: World,
    pub r: Result<Seq<ReplyModel>, Failure>,
}

/// Statements sent together. The texts that each makes are entered before it runs.
/// The answer of each is behind the messages that wait
/// for delivery. A transaction that none of them began as a block ends with the
/// last of them, or with the first that fails.
pub open spec fn batch(w: World, stmts: Stmts, acc: Seq<ReplyModel>) -> Run
    decreases stmts,
{
    match stmts {
        Stmts::Nil => if in_block(w.s) {
            Run { w, r: Ok(acc) }
        } else {
            match finished(w) {
                (w1, Some(f)) => Run { w: w1, r: Err(failure(f)) },
                (w1, None) => Run { w: w1, r: Ok(acc) },
            }
        },
        Stmts::Cons(stmt, rest) => {
            let st = step(supply::supplied(w, *stmt), *stmt);
            match st.r {
                Err(f) => Run {
                    w: if in_block(st.w.s) {
                        st.w
                    } else {
                        undone(st.w)
                    },
                    r: Err(f),
                },
                Ok(a) => batch(
                    with_session(st.w, drained(st.w.s)),
                    *rest,
                    (acc + notice_replies(st.w.s.notices)).push(ReplyModel::Answer(a)),
                ),
            }
        },
    }
}

pub open spec fn replies_result(
    r: Result<Vec<Reply>, Failure>,
) -> Result<Seq<ReplyModel>, Failure> {
    match r {
        Ok(v) => Ok(replies_view(v@)),
        Err(f) => Err(f),
    }
}

/// Appends messages as replies.
fn deliver(acc: &mut Vec<Reply>, ns: &Vec<Notice>)
    ensures
        replies_view(final(acc)@) == replies_view(old(acc)@) + notice_replies(ns@),
{
    let ghost before = acc@;
    let mut i: usize = 0;
    while i < ns.len()
        invariant
            i <= ns.len(),
            replies_view(acc@) =~= replies_view(before) + notice_replies(ns@.take(i as int)),
        decreases ns.len() - i,
    {
        let ghost now = acc@;
        acc.push(Reply::Notice(ns[i]));
        i += 1;
        assert(replies_view(acc@) =~= replies_view(now).push(ReplyModel::Notice(ns@[i - 1])));
        assert(notice_replies(ns@.take(i as int)) =~= notice_replies(ns@.take(i - 1)).push(
            ReplyModel::Notice(ns@[i - 1]),
        ));
    }
    assert(ns@.take(i as int) =~= ns@);
}

/// Executes statements that were sent together.
pub fn execute_batch(g: &mut Shared, s: Session, stmts: &Stmts, acc: Vec<Reply>) -> (out: (
    Session,
    Result<Vec<Reply>, Failure>,
))
    requires
        symbols::is_table(old(g)@.symbols),
    ensures
        symbols::is_table(final(g)@.symbols),
        ({
            let run = batch(World { g: old(g)@, s: s@ }, *stmts, replies_view(acc@));
            &&& final(g)@ == run.w.g
            &&& out.0@ == run.w.s
            &&& replies_result(out.1) == run.r
        }),
    decreases stmts,
{
    match stmts {
        Stmts::Nil => {
            if is_in_block(&s) {
                return (s, Ok(acc));
            }
            let (s, clash): (Session, Option<Fault>) = finish(g, s);
            match clash {
                Some(f) => (s, Err(fail(f))),
                None => (s, Ok(acc)),
            }
        },
        Stmts::Cons(stmt, rest) => {
            proof {
                supply::law_supply_changes_the_table_alone(World { g: g@, s: s@ }, **stmt);
            }
            supply::supply(g, &s, stmt);
            proof {
                lemma_step_keeps_symbols(World { g: g@, s: s@ }, **stmt);
            }
            let (s, r): (Session, Result<Answer, Failure>) = execute(g, s, stmt);
            match r {
                Err(f) => {
                    if is_in_block(&s) {
                        (s, Err(f))
                    } else {
                        (undo(g, s), Err(f))
                    }
                },
                Ok(a) => {
                    let mut s = s;
                    let mut acc = acc;
                    deliver(&mut acc, &s.notices);
                    let ghost told = acc@;
                    acc.push(Reply::Answer(a));
                    assert(replies_view(acc@) =~= replies_view(told).push(
                        ReplyModel::Answer(a@),
                    ));
                    s.notices = Vec::new();
                    execute_batch(g, s, rest, acc)
                },
            }
        },
    }
}

} // verus!
