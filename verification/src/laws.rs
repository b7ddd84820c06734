//! What holds of sessions and their transactions, whatever statements they send.

use vstd::prelude::*;
use crate::auth::StartupModel;
use crate::ast::IsolationLevel;
use crate::ast::Query;
use crate::ast::Setting;
use crate::ast::Stmt;
use crate::ast::Stmts;
use crate::change;
use crate::engine;
use crate::engine::BuilderModel;
use crate::engine::EngineModel;
use crate::fault::Fault;
use crate::fault::Tag;
use crate::lexer;
use crate::notice::Notice;
use crate::parser;
use crate::portal;
use crate::prepared;
use crate::prepared::Prepared;
use crate::session;
use crate::session::AnswerModel;
use crate::session::ReplyModel;
use crate::session::SaveModel;
use crate::session::SessionModel;
use crate::session::SharedModel;
use crate::session::TxnModel;
use crate::session::World;
use crate::txn;
use crate::supply;
use crate::symbols;
use crate::txn::ManagerModel;
use crate::validity;

verus! {

/// A query changes nothing: neither the committed state, nor what its session sees,
/// nor what is set.
pub proof fn law_query_changes_nothing(w: World, q: Box<Query>)
    ensures
        ({
            let after = session::step(w, Stmt::Query(q)).w;
            &&& after.g == w.g
            &&& session::seen(after) == session::seen(session::refreshed(w))
            &&& after.s.vars == w.s.vars
            &&& after.s.notices == w.s.notices
        }),
{
    reveal(session::run);
}

/// A transaction block that has failed takes nothing but a way out: every other
/// statement is refused and changes nothing.
pub proof fn law_failed_block_refuses(w: World, stmt: Stmt)
    requires
        session::is_failed(w.s),
        !session::is_way_out(stmt),
    ensures
        session::step(w, stmt).r == Err::<AnswerModel, _>(session::failure(Fault::Aborted)),
        session::step(w, stmt).w.g == w.g,
        session::step(w, stmt).w.s.vars == w.s.vars,
        session::is_failed(session::step(w, stmt).w.s),
{
    reveal(session::run);
}

/// What holds of every statement: how it can touch the committed state, the
/// transaction of its session and the counters of the manager.
#[verifier::rlimit(100)]
#[verifier::spinoff_prover]
proof fn lemma_step_facts(w: World, stmt: Stmt)
    ensures
        ({
            let st = session::step(w, stmt);
            let after = st.w;
            &&& (st.r is Err && session::in_block(w.s)) ==> (after.s.txn is None
                || session::is_failed(after.s))
            &&& (st.r is Err || (session::in_block(w.s) && !(stmt is Commit)) || (
            !session::in_block(w.s) && !(stmt is Begin) && !(stmt is Commit) && !(
            stmt is Rollback))) ==> (after.g.committed == w.g.committed && after.g.version
                == w.g.version)
            &&& (!session::in_block(w.s) && !(stmt is Begin) && !(stmt is Commit) && !(
            stmt is Rollback)) ==> !session::in_block(after.s)
            &&& (session::in_block(w.s) && stays_in_block(stmt)) ==> {
                &&& session::in_block(after.s)
                &&& after.s.txn->Some_0.saves == w.s.txn->Some_0.saves
                &&& after.s.txn->Some_0.id == w.s.txn->Some_0.id
                &&& after.s.txn->Some_0.before == w.s.txn->Some_0.before
                &&& after.g == w.g
            }
            &&& counters_have_room(w.g.manager) ==> balance(after.g.manager) - balance(w.g.manager)
                == open_txns(after.s) - open_txns(w.s)
            &&& (world_ok(w) && change::change_tag(stmt) is None && !(stmt is Savepoint) && !(
            stmt is RollbackTo) && !(stmt is Release)) ==> world_ok(after)
        }),
{
    reveal(session::run);
    match stmt {
        Stmt::Begin(_, _) => {
            reveal(session::begin_step);
        },
        Stmt::Commit => {
            reveal(session::commit_step);
        },
        Stmt::Rollback => {
            reveal(session::rollback_step);
        },
        Stmt::Savepoint(_) => {
            reveal(session::savepoint_step);
        },
        Stmt::RollbackTo(_) => {
            reveal(session::rollback_to_step);
        },
        Stmt::Release(_) => {
            reveal(session::release_step);
        },
        Stmt::Assign(_, _, _) => {
            reveal(session::assign_step);
        },
        Stmt::Reset(_) => {
            reveal(session::assign_step);
        },
        Stmt::SetModes(_, _) => {
            reveal(session::set_modes_step);
            reveal(session::session_modes_step);
        },
        Stmt::ResetModes(_) => {
            reveal(session::session_modes_step);
        },
        Stmt::Show(_) => {
            reveal(session::show_step);
        },
        Stmt::ActAs(_, _) => {
            reveal(session::act_step);
        },
        Stmt::Define(_) => {
            reveal(session::define_step);
        },
        Stmt::Do(_) => {
            reveal(session::block_step);
        },
        Stmt::Declare(_, _) => {
            reveal(session::declare_step);
        },
        Stmt::Fetch(_, _) => {
            reveal(session::fetch_step);
        },
        Stmt::Move(_, _) => {
            reveal(session::fetch_step);
        },
        Stmt::Close(_) => {
            reveal(session::close_step);
        },
        _ => {
            reveal(session::change_step);
        },
    }
}

/// A statement that fails in a transaction block makes the block fail, unless the
/// whole transaction is rolled back.
pub proof fn law_failure_fails_block(w: World, stmt: Stmt)
    requires
        session::in_block(w.s),
        session::step(w, stmt).r is Err,
    ensures
        session::step(w, stmt).w.s.txn is None || session::is_failed(session::step(w, stmt).w.s),
{
    lemma_step_facts(w, stmt);
}

/// A statement that fails leaves the committed state as it was.
pub proof fn law_failure_commits_nothing(w: World, stmt: Stmt)
    requires
        session::step(w, stmt).r is Err,
    ensures
        session::step(w, stmt).w.g.committed == w.g.committed,
        session::step(w, stmt).w.g.version == w.g.version,
{
    lemma_step_facts(w, stmt);
}

/// What a session does in a transaction block is not committed before `COMMIT`.
pub proof fn law_block_is_private(w: World, stmt: Stmt)
    requires
        session::in_block(w.s),
        !(stmt is Commit),
    ensures
        session::step(w, stmt).w.g.committed == w.g.committed,
        session::step(w, stmt).w.g.version == w.g.version,
{
    lemma_step_facts(w, stmt);
}

/// `COMMIT` of a block that has not failed and meets no conflict commits what its
/// session sees. The block is over, and with it its savepoints.
pub proof fn law_commit_publishes(w: World)
    requires
        session::in_block(w.s),
        !session::is_failed(w.s),
        !session::conflicts(w.g, session::refreshed(w).s.txn->Some_0),
    ensures
        ({
            let st = session::step(w, Stmt::Commit);
            &&& st.r == Ok::<_, session::Failure>(AnswerModel::Command(Tag::Commit, 0))
            &&& st.w.s.txn is None
            &&& w.s.txn->Some_0.work.dirty ==> st.w.g.committed == session::seen(w)
            &&& !w.s.txn->Some_0.work.dirty ==> st.w.g.committed == w.g.committed
        }),
{
    reveal(session::run);
    reveal(session::commit_step);
}

/// `COMMIT` of a block that has failed rolls it back.
pub proof fn law_commit_of_failed_block(w: World)
    requires
        session::is_failed(w.s),
    ensures
        ({
            let st = session::step(w, Stmt::Commit);
            &&& st.r == Ok::<_, session::Failure>(AnswerModel::Command(Tag::Rollback, 0))
            &&& st.w.s.txn is None
            &&& st.w.g.committed == w.g.committed
            &&& st.w.s.vars == w.s.txn->Some_0.before
        }),
{
    reveal(session::run);
    reveal(session::commit_step);
}

/// `ROLLBACK` ends a block, and with it its savepoints. Nothing is committed, and
/// what is set is what was set when the block began.
pub proof fn law_rollback_discards(w: World)
    requires
        session::in_block(w.s),
    ensures
        ({
            let st = session::step(w, Stmt::Rollback);
            &&& st.r == Ok::<_, session::Failure>(AnswerModel::Command(Tag::Rollback, 0))
            &&& st.w.s.txn is None
            &&& st.w.g.committed == w.g.committed
            &&& st.w.s.vars == w.s.txn->Some_0.before
        }),
{
    reveal(session::run);
    reveal(session::rollback_step);
}

/// A session in a block that keeps to the state it began with sees the same
/// whatever others commit.
pub proof fn law_snapshot_is_stable(w: World, g: SharedModel)
    requires
        session::in_block(w.s),
        w.s.txn->Some_0.modes.isolation != IsolationLevel::ReadCommitted,
    ensures
        session::seen(session::refreshed(World { g, s: w.s })) == session::seen(w),
{
}

/// A session in a block that does not keep to the state it began with, and has
/// changed nothing, sees what was committed last.
pub proof fn law_read_committed(w: World)
    requires
        session::in_block(w.s),
        w.s.txn->Some_0.modes.isolation == IsolationLevel::ReadCommitted,
        !w.s.txn->Some_0.work.dirty,
    ensures
        session::seen(session::refreshed(w)) == w.g.committed,
{
}

/// A transaction that may only read refuses every statement that changes something,
/// and nothing is changed.
#[verifier::rlimit(60)]
#[verifier::spinoff_prover]
pub proof fn law_read_only_refuses(w: World, stmt: Stmt, tag: Tag)
    requires
        session::modes_of(w.s).read_only,
        !session::is_failed(w.s),
        change::change_tag(stmt) == Some(tag),
    ensures
        session::step(w, stmt).r == Err::<AnswerModel, _>(
            session::failure(Fault::ReadOnly { tag }),
        ),
        session::step(w, stmt).w.g == w.g,
        session::seen(session::step(w, stmt).w) == session::seen(session::refreshed(w)),
{
    reveal(session::run);
    reveal(session::change_step);
}

/// `SET LOCAL` outside of a transaction block says so and sets nothing.
pub proof fn law_set_local_outside(w: World, name: usize, value: Setting)
    requires
        w.s.txn is None,
    ensures
        ({
            let st = session::step(w, Stmt::Assign(true, name, value));
            &&& st.r == Ok::<_, session::Failure>(AnswerModel::Command(Tag::SetVariable, 0))
            &&& st.w.g == w.g
            &&& st.w.s.vars == w.s.vars
            &&& st.w.s.notices == w.s.notices.push(Notice::LocalOutsideTransaction)
        }),
{
    reveal(session::run);
    reveal(session::assign_step);
}

/// What `SET LOCAL` sets does not outlive the block: after `COMMIT` what is set is
/// what would be set without it.
pub proof fn law_set_local_ends_with_block(w: World, name: usize, value: Setting)
    requires
        session::in_block(w.s),
        !session::is_failed(w.s),
        session::step(w, Stmt::Assign(true, name, value)).r is Ok,
    ensures
        session::kept(session::step(w, Stmt::Assign(true, name, value)).w).s.vars == session::kept(
            w,
        ).s.vars,
{
    reveal(session::run);
    reveal(session::assign_step);
}

/// The statements that neither end a block nor touch its savepoints.
pub open spec fn stays_in_block(stmt: Stmt) -> bool {
    !(stmt is Commit) && !(stmt is Rollback) && !(stmt is Savepoint) && !(stmt is RollbackTo)
        && !(stmt is Release)
}

/// Whether a statement leaves the block open and its first `k + 1` savepoints in
/// place: it does not end the block, rolls back to none of the first `k` and
/// releases none of the first `k + 1`.
pub open spec fn leaves_savepoint(w: World, stmt: Stmt, k: int) -> bool {
    let saves = w.s.txn->Some_0.saves;
    match stmt {
        Stmt::Commit => false,
        Stmt::Rollback => false,
        Stmt::RollbackTo(n) => match session::save_place(saves, n, saves.len() as int) {
            None => true,
            Some(i) => i >= k,
        },
        Stmt::Release(n) => match session::save_place(saves, n, saves.len() as int) {
            None => true,
            Some(i) => i > k,
        },
        _ => true,
    }
}

/// Whether each of some statements leaves the block open and its first `k + 1`
/// savepoints in place.
pub open spec fn all_leave_savepoint(w: World, stmts: Stmts, k: int) -> bool
    decreases stmts,
{
    match stmts {
        Stmts::Nil => true,
        Stmts::Cons(stmt, rest) => leaves_savepoint(w, *stmt, k) && all_leave_savepoint(
            session::step(w, *stmt).w,
            *rest,
            k,
        ),
    }
}

/// Whether a name means the savepoint at place `k`: no later one has it.
pub open spec fn means_savepoint(w: World, name: usize, k: int) -> bool {
    let saves = w.s.txn->Some_0.saves;
    session::save_place(saves, name, saves.len() as int) == Some(k)
}

/// What is left of the world after each of some statements was sent on its own,
/// whether it failed or not.
pub open spec fn after_all(w: World, stmts: Stmts) -> World
    decreases stmts,
{
    match stmts {
        Stmts::Nil => w,
        Stmts::Cons(stmt, rest) => after_all(session::step(w, *stmt).w, *rest),
    }
}

proof fn lemma_stays(w: World, stmt: Stmt)
    requires
        session::in_block(w.s),
        stays_in_block(stmt),
    ensures
        ({
            let after = session::step(w, stmt).w;
            &&& session::in_block(after.s)
            &&& after.s.txn->Some_0.saves == w.s.txn->Some_0.saves
            &&& after.s.txn->Some_0.id == w.s.txn->Some_0.id
            &&& after.s.txn->Some_0.before == w.s.txn->Some_0.before
            &&& after.g == w.g
        }),
{
    lemma_step_facts(w, stmt);
}

#[verifier::rlimit(60)]
#[verifier::spinoff_prover]
proof fn lemma_savepoint_stays(w: World, stmt: Stmt, k: int)
    requires
        session::in_block(w.s),
        w.g.storage is Plain,
        w.g.catalog is Plain,
        0 <= k < w.s.txn->Some_0.saves.len(),
        leaves_savepoint(w, stmt, k),
    ensures
        ({
            let after = session::step(w, stmt).w;
            &&& session::in_block(after.s)
            &&& k < after.s.txn->Some_0.saves.len()
            &&& after.s.txn->Some_0.saves.take(k + 1) == w.s.txn->Some_0.saves.take(k + 1)
            &&& after.g == w.g
        }),
{
    let saves = w.s.txn->Some_0.saves;
    match stmt {
        Stmt::Savepoint(_) => {
            reveal(session::run);
            reveal(session::savepoint_step);
            let after = session::step(w, stmt).w.s.txn->Some_0.saves;
            assert(after.take(k + 1) =~= saves.take(k + 1));
        },
        Stmt::RollbackTo(n) => {
            reveal(session::run);
            reveal(session::rollback_to_step);
            lemma_save_place(saves, n, saves.len() as int);
            let after = session::step(w, stmt).w.s.txn->Some_0.saves;
            assert(after.take(k + 1) =~= saves.take(k + 1));
        },
        Stmt::Release(n) => {
            reveal(session::run);
            reveal(session::release_step);
            lemma_save_place(saves, n, saves.len() as int);
            let after = session::step(w, stmt).w.s.txn->Some_0.saves;
            assert(after.take(k + 1) =~= saves.take(k + 1));
        },
        _ => {
            lemma_stays(w, stmt);
        },
    }
}

proof fn lemma_all_leave_savepoint(w: World, stmts: Stmts, k: int)
    requires
        session::in_block(w.s),
        w.g.storage is Plain,
        w.g.catalog is Plain,
        0 <= k < w.s.txn->Some_0.saves.len(),
        all_leave_savepoint(w, stmts, k),
    ensures
        ({
            let after = after_all(w, stmts);
            &&& session::in_block(after.s)
            &&& k < after.s.txn->Some_0.saves.len()
            &&& after.s.txn->Some_0.saves.take(k + 1) == w.s.txn->Some_0.saves.take(k + 1)
            &&& after.g == w.g
        }),
    decreases stmts,
{
    match stmts {
        Stmts::Nil => {},
        Stmts::Cons(stmt, rest) => {
            lemma_savepoint_stays(w, *stmt, k);
            lemma_all_leave_savepoint(session::step(w, *stmt).w, *rest, k);
        },
    }
}

#[verifier::rlimit(60)]
#[verifier::spinoff_prover]
proof fn lemma_savepoint(w: World, name: usize)
    requires
        session::in_block(w.s),
        !session::is_failed(w.s),
        w.g.storage is Plain,
        w.g.catalog is Plain,
    ensures
        ({
            let t = session::refreshed(w).s.txn->Some_0;
            let st = session::step(w, Stmt::Savepoint(name));
            &&& st.r is Ok
            &&& st.w.g == w.g
            &&& st.w.s == (SessionModel {
                txn: Some(
                    TxnModel {
                        saves: t.saves.push(
                            SaveModel {
                                name,
                                storage_id: 0,
                                catalog_id: 0,
                                work: t.work,
                                vars: w.s.vars,
                                kept: t.kept,
                                notices: w.s.notices,
                                mark: w.s.next_portal,
                            },
                        ),
                        ..t
                    },
                ),
                ..w.s
            })
        }),
{
    reveal(session::run);
    reveal(session::savepoint_step);
}

#[verifier::rlimit(60)]
#[verifier::spinoff_prover]
proof fn lemma_rollback_to(w: World, name: usize, k: int)
    requires
        session::in_block(w.s),
        w.g.storage is Plain,
        w.g.catalog is Plain,
        means_savepoint(w, name, k),
    ensures
        ({
            let t = w.s.txn->Some_0;
            let save = t.saves[k];
            let st = session::step(w, Stmt::RollbackTo(name));
            &&& st.r == Ok::<_, session::Failure>(AnswerModel::Command(Tag::Rollback, 0))
            &&& st.w.g == w.g
            &&& st.w.s.vars == save.vars
            &&& st.w.s.notices == save.notices
            &&& st.w.s.txn is Some
            &&& !st.w.s.txn->Some_0.failed
            &&& st.w.s.txn->Some_0.work == save.work
            &&& st.w.s.txn->Some_0.saves == t.saves.take(k + 1)
            &&& st.w.s.portals == portal::older(w.s.portals, save.mark)
        }),
{
    reveal(session::run);
    reveal(session::rollback_to_step);
}

#[verifier::rlimit(60)]
#[verifier::spinoff_prover]
proof fn lemma_release(w: World, name: usize, k: int)
    requires
        session::in_block(w.s),
        !session::is_failed(w.s),
        w.g.storage is Plain,
        w.g.catalog is Plain,
        means_savepoint(w, name, k),
    ensures
        ({
            let t = w.s.txn->Some_0;
            let st = session::step(w, Stmt::Release(name));
            &&& st.r == Ok::<_, session::Failure>(AnswerModel::Command(Tag::Release, 0))
            &&& st.w.s.vars == w.s.vars
            &&& st.w.s.txn is Some
            &&& st.w.s.txn->Some_0.work == session::refreshed(w).s.txn->Some_0.work
            &&& st.w.s.txn->Some_0.saves == t.saves.take(k)
        }),
{
    reveal(session::run);
    reveal(session::release_step);
}

/// `ROLLBACK TO SAVEPOINT` brings back what there was at the savepoint, whatever
/// was sent in between and whether it failed or not, other savepoints, rollbacks and
/// releases among it, as long as the savepoint was left in place and no later one
/// has its name: what the session sees, what is set and the messages that waited.
/// It can be repeated, for the savepoint stays, and those under it.
pub proof fn law_rollback_to_restores(w: World, name: usize, stmts: Stmts)
    requires
        session::in_block(w.s),
        !session::is_failed(w.s),
        w.g.storage is Plain,
        w.g.catalog is Plain,
        ({
            let at = session::step(w, Stmt::Savepoint(name)).w;
            let k = w.s.txn->Some_0.saves.len() as int;
            &&& all_leave_savepoint(at, stmts, k)
            &&& means_savepoint(after_all(at, stmts), name, k)
        }),
    ensures
        ({
            let at = session::step(w, Stmt::Savepoint(name));
            let st = session::step(after_all(at.w, stmts), Stmt::RollbackTo(name));
            &&& at.r is Ok
            &&& st.r == Ok::<_, session::Failure>(AnswerModel::Command(Tag::Rollback, 0))
            &&& session::seen(st.w) == session::seen(at.w)
            &&& st.w.s.vars == at.w.s.vars
            &&& st.w.s.notices == at.w.s.notices
            &&& st.w.s.txn->Some_0.saves == at.w.s.txn->Some_0.saves
            &&& !session::is_failed(st.w.s)
            &&& st.w.g == w.g
        }),
{
    lemma_savepoint(w, name);
    let at = session::step(w, Stmt::Savepoint(name)).w;
    let k = w.s.txn->Some_0.saves.len() as int;
    let saves = at.s.txn->Some_0.saves;
    assert(saves.take(k + 1) =~= saves);
    lemma_all_leave_savepoint(at, stmts, k);
    let last = after_all(at, stmts).s.txn->Some_0.saves;
    assert(last[k] == last.take(k + 1)[k]);
    lemma_rollback_to(after_all(at, stmts), name, k);
}

/// `RELEASE SAVEPOINT` preserves the work done since, whatever was sent in between,
/// as long as the savepoint was left in place and no later one has its name: what
/// the session sees and what is set stay; the savepoint is gone, and those above it.
pub proof fn law_release_preserves_work(w: World, name: usize, stmts: Stmts)
    requires
        session::in_block(w.s),
        !session::is_failed(w.s),
        w.g.storage is Plain,
        w.g.catalog is Plain,
        ({
            let at = session::step(w, Stmt::Savepoint(name)).w;
            let k = w.s.txn->Some_0.saves.len() as int;
            &&& all_leave_savepoint(at, stmts, k)
            &&& means_savepoint(after_all(at, stmts), name, k)
            &&& !session::is_failed(after_all(at, stmts).s)
        }),
    ensures
        ({
            let at = session::step(w, Stmt::Savepoint(name));
            let before = after_all(at.w, stmts);
            let st = session::step(before, Stmt::Release(name));
            &&& st.r == Ok::<_, session::Failure>(AnswerModel::Command(Tag::Release, 0))
            &&& session::seen(st.w) == session::seen(session::refreshed(before))
            &&& st.w.s.vars == before.s.vars
            &&& st.w.s.txn->Some_0.saves == w.s.txn->Some_0.saves
        }),
{
    lemma_savepoint(w, name);
    let at = session::step(w, Stmt::Savepoint(name)).w;
    let k = w.s.txn->Some_0.saves.len() as int;
    let saves = at.s.txn->Some_0.saves;
    assert(saves.take(k + 1) =~= saves);
    lemma_all_leave_savepoint(at, stmts, k);
    let last = after_all(at, stmts).s.txn->Some_0.saves;
    lemma_release(after_all(at, stmts), name, k);
    assert(last.take(k) =~= last.take(k + 1).take(k));
    assert(saves.take(k + 1).take(k) =~= w.s.txn->Some_0.saves);
}

/// How many more transactions were begun than ended.
pub open spec fn balance(m: ManagerModel) -> int {
    m.begins - m.commits - m.rollbacks
}

pub open spec fn open_txns(s: SessionModel) -> int {
    if s.txn is Some {
        1
    } else {
        0
    }
}

/// Whether all counters have room for another transaction.
pub open spec fn counters_have_room(m: ManagerModel) -> bool {
    m.begins < u64::MAX && m.commits < u64::MAX && m.rollbacks < u64::MAX
}

/// Every transaction that is begun is ended once: each statement changes the
/// balance of the manager as it opens or ends the transaction of its session.
pub proof fn law_transactions_are_balanced(w: World, stmt: Stmt)
    requires
        counters_have_room(w.g.manager),
    ensures
        balance(session::step(w, stmt).w.g.manager) - balance(w.g.manager) == open_txns(
            session::step(w, stmt).w.s,
        ) - open_txns(w.s),
{
    lemma_step_facts(w, stmt);
}

/// A single statement outside of a block is a transaction of its own: if it
/// succeeds, what it made of the committed state is committed, and one more
/// transaction has been begun and committed.
#[verifier::rlimit(60)]
#[verifier::spinoff_prover]
pub proof fn law_single_statement_commits(w: World, stmt: Stmt, tag: Tag)
    requires
        w.s.txn is None,
        w.s.notices.len() == 0,
        change::change_tag(stmt) == Some(tag),
        session::batch(w, Stmts::Cons(Box::new(stmt), Box::new(Stmts::Nil)), Seq::empty()).r is Ok,
    ensures
        ({
            let run = session::batch(
                w,
                Stmts::Cons(Box::new(stmt), Box::new(Stmts::Nil)),
                Seq::empty(),
            );
            let before = supply::supplied(w, stmt);
            let c = change::changed(session::context(before), w.g.config, stmt);
            &&& c is Ok
            &&& run.w.g.committed == c->Ok_0.db
            &&& run.w.s.txn is None
            &&& run.w.s.vars == w.s.vars
            &&& run.w.g.manager == txn::after_commit(txn::after_begin(w.g.manager))
        }),
{
    supply::law_supply_changes_the_table_alone(w, stmt);
    reveal(session::run);
    reveal(session::change_step);
    reveal_with_fuel(session::batch, 3);
}

/// A single query outside of a block begins no transaction: nothing that sessions
/// share changes, but for the texts that it makes.
#[verifier::rlimit(60)]
#[verifier::spinoff_prover]
pub proof fn law_single_query_begins_nothing(w: World, q: Box<Query>)
    requires
        w.s.txn is None,
    ensures
        session::batch(
            w,
            Stmts::Cons(Box::new(Stmt::Query(q)), Box::new(Stmts::Nil)),
            Seq::empty(),
        ).w.g == supply::supplied(w, Stmt::Query(q)).g,
        supply::supplied(w, Stmt::Query(q)).g == (SharedModel {
            symbols: supply::supplied(w, Stmt::Query(q)).g.symbols,
            ..w.g
        }),
{
    supply::law_supply_changes_the_table_alone(w, Stmt::Query(q));
    reveal(session::run);
    reveal_with_fuel(session::batch, 3);
}

/// Statements sent together outside of a block that end outside of one leave no
/// transaction open.
#[verifier::rlimit(60)]
#[verifier::spinoff_prover]
pub proof fn law_batch_leaves_no_implicit_transaction(w: World, stmts: Stmts, acc: Seq<ReplyModel>)
    ensures
        ({
            let s = session::batch(w, stmts, acc).w.s;
            s.txn is None || session::in_block(s)
        }),
    decreases stmts,
{
    match stmts {
        Stmts::Nil => {},
        Stmts::Cons(stmt, rest) => {
            supply::law_supply_changes_the_table_alone(w, *stmt);
            let st = session::step(supply::supplied(w, *stmt), *stmt);
            match st.r {
                Err(_) => {},
                Ok(a) => {
                    law_batch_leaves_no_implicit_transaction(
                        session::with_session(st.w, session::drained(st.w.s)),
                        *rest,
                        (acc + session::notice_replies(st.w.s.notices)).push(
                            ReplyModel::Answer(a),
                        ),
                    );
                },
            }
        },
    }
}

/// Statements sent together that fail outside of a block commit nothing.
#[verifier::rlimit(60)]
#[verifier::spinoff_prover]
pub proof fn law_failed_batch_commits_nothing(w: World, stmts: Stmts, acc: Seq<ReplyModel>)
    requires
        no_block_statements(stmts),
        !session::in_block(w.s),
        session::batch(w, stmts, acc).r is Err,
    ensures
        session::batch(w, stmts, acc).w.g.committed == w.g.committed,
        session::batch(w, stmts, acc).w.s.txn is None,
    decreases stmts,
{
    match stmts {
        Stmts::Nil => {},
        Stmts::Cons(stmt, rest) => {
            supply::law_supply_changes_the_table_alone(w, *stmt);
            let st = session::step(supply::supplied(w, *stmt), *stmt);
            lemma_no_block(supply::supplied(w, *stmt), *stmt);
            match st.r {
                Err(_) => {},
                Ok(a) => {
                    law_failed_batch_commits_nothing(
                        session::with_session(st.w, session::drained(st.w.s)),
                        *rest,
                        (acc + session::notice_replies(st.w.s.notices)).push(
                            ReplyModel::Answer(a),
                        ),
                    );
                },
            }
        },
    }
}

/// Whether none of some statements begins or ends a transaction.
pub open spec fn no_block_statements(stmts: Stmts) -> bool
    decreases stmts,
{
    match stmts {
        Stmts::Nil => true,
        Stmts::Cons(stmt, rest) => {
            &&& !(*stmt is Begin)
            &&& !(*stmt is Commit)
            &&& !(*stmt is Rollback)
            &&& no_block_statements(*rest)
        },
    }
}

proof fn lemma_no_block(w: World, stmt: Stmt)
    requires
        !session::in_block(w.s),
        !(stmt is Begin),
        !(stmt is Commit),
        !(stmt is Rollback),
    ensures
        !session::in_block(session::step(w, stmt).w.s),
        session::step(w, stmt).w.g.committed == w.g.committed,
{
    lemma_step_facts(w, stmt);
}

/// What is sent in one session leaves all other sessions as they are.
pub proof fn law_sessions_are_separate(e: EngineModel, id: u64, sql: Seq<char>, j: int)
    requires
        0 <= j < e.sessions.len(),
        e.sessions[j].0 != id,
    ensures
        engine::executed(e, id, sql).0.sessions.len() == e.sessions.len(),
        engine::executed(e, id, sql).0.sessions[j] == e.sessions[j],
{
    engine::lemma_session_place(e.sessions, id, 0);
}

/// A session that is not there is answered with an error, and nothing changes.
pub proof fn law_unknown_session(e: EngineModel, id: u64, sql: Seq<char>)
    requires
        engine::session_of(e, id) is None,
    ensures
        engine::executed(e, id, sql).0 == e,
        engine::executed(e, id, sql).1 is Err,
{
}

/// The end of a block closes the portals that were opened in it, however it ends.
pub proof fn law_block_end_closes_portals(w: World, stmt: Stmt)
    requires
        session::in_block(w.s),
        stmt is Commit || stmt is Rollback,
    ensures
        ({
            let after = session::step(w, stmt).w.s;
            &&& after.txn is None
            &&& after.portals == portal::older(w.s.portals, w.s.txn->Some_0.mark)
            &&& forall|i: int|
                0 <= i < after.portals.len() ==> (#[trigger] after.portals[i]).born
                    < w.s.txn->Some_0.mark
        }),
{
    reveal(session::run);
    reveal(session::commit_step);
    reveal(session::rollback_step);
    portal::lemma_older(w.s.portals, w.s.txn->Some_0.mark);
}

/// A portal that was there when a block began is there when it ends.
pub proof fn law_older_portals_stay(w: World, stmt: Stmt)
    requires
        session::in_block(w.s),
        stmt is Commit || stmt is Rollback,
        forall|i: int|
            0 <= i < w.s.portals.len() ==> (#[trigger] w.s.portals[i]).born
                < w.s.txn->Some_0.mark,
    ensures
        session::step(w, stmt).w.s.portals == w.s.portals,
{
    law_block_end_closes_portals(w, stmt);
    portal::lemma_all_older(w.s.portals, w.s.txn->Some_0.mark);
}

/// A cursor that was declared after a savepoint is gone after a rollback to it.
pub proof fn law_rollback_to_closes_cursor(w: World, name: usize, cursor: usize, q: Box<Query>)
    requires
        session::in_block(w.s),
        !session::is_failed(w.s),
        w.g.storage is Plain,
        w.g.catalog is Plain,
        portal::portal_place(w.s.portals, cursor, 0) is None,
        forall|i: int|
            0 <= i < w.s.portals.len() ==> (#[trigger] w.s.portals[i]).born < w.s.next_portal,
    ensures
        ({
            let at = session::step(w, Stmt::Savepoint(name)).w;
            let declared = session::step(at, Stmt::Declare(cursor, Some(q))).w;
            let st = session::step(declared, Stmt::RollbackTo(name));
            &&& st.w.s.portals == w.s.portals
            &&& portal::cursor_place(st.w.s.portals, cursor) is None
        }),
{
    lemma_savepoint(w, name);
    let at = session::step(w, Stmt::Savepoint(name)).w;
    let stmt = Stmt::Declare(cursor, Some(q));
    lemma_stays(at, stmt);
    let declared = session::step(at, stmt).w;
    let saves = declared.s.txn->Some_0.saves;
    assert(saves.last().name == name);
    lemma_rollback_to(declared, name, saves.len() - 1);
    portal::lemma_all_older(w.s.portals, w.s.next_portal);
    assert(declared.s.portals == w.s.portals || (declared.s.portals.drop_last() =~= w.s.portals
        && declared.s.portals.len() == w.s.portals.len() + 1 && declared.s.portals.last().born
        == w.s.next_portal)) by {
        reveal(session::run);
        reveal(session::declare_step);
    }
}

/// A portal that holds its rows hands them out without executing its statement
/// again: nothing but its position changes.
pub proof fn law_portal_executes_once(
    w: World,
    ps: Seq<Prepared>,
    owner: u64,
    name: usize,
    max: u64,
)
    requires
        portal::portal_place(w.s.portals, name, 0) matches Some(i)
            && w.s.portals[i].content is Rows,
    ensures
        ({
            let after = prepared::portal_run(w, ps, owner, name, max).0;
            &&& after.g == w.g
            &&& after.s.txn == w.s.txn
            &&& after.s.vars == w.s.vars
            &&& after.s.notices == w.s.notices
            &&& after.s.portals.len() == w.s.portals.len()
        }),
{
    portal::lemma_portal_place(w.s.portals, name, 0);
}

/// What a session has prepared does not depend on the texts that it sends: it stays
/// prepared, be the text that of a commit, of a rollback or of anything else.
pub proof fn law_prepared_statements_stay(e: EngineModel, id: u64, sql: Seq<char>)
    ensures
        engine::executed(e, id, sql).0.prepared == e.prepared,
{
}

/// Whether all states of the database that a session holds are sound.
pub open spec fn session_ok(s: SessionModel) -> bool {
    match s.txn {
        None => true,
        Some(t) => {
            &&& validity::db_ok(t.work.db)
            &&& forall|i: int|
                0 <= i < t.saves.len() ==> validity::db_ok((#[trigger] t.saves[i]).work.db)
        },
    }
}

/// Whether the committed state and all that a session holds are sound.
pub open spec fn world_ok(w: World) -> bool {
    validity::db_ok(w.g.committed) && session_ok(w.s)
}

#[verifier::spinoff_prover]
proof fn lemma_change_keeps_sound(w: World, tag: Tag, stmt: Stmt)
    requires
        world_ok(w),
    ensures
        world_ok(session::change_step(w, tag, stmt).w),
{
    reveal(session::change_step);
    let w1 = if w.s.txn is Some {
        w
    } else {
        session::begun(w, false, w.s.vars.modes)
    };
    if change::changed(session::context(w1), w1.g.config, stmt) is Ok {
        validity::law_change_keeps_sound(session::context(w1), w1.g.config, stmt);
    }
}

#[verifier::rlimit(60)]
#[verifier::spinoff_prover]
proof fn lemma_savepoint_keeps_sound(w: World, stmt: Stmt)
    requires
        world_ok(w),
        stmt is Savepoint || stmt is RollbackTo || stmt is Release,
    ensures
        world_ok(session::run(w, stmt).w),
{
    reveal(session::run);
    match stmt {
        Stmt::Savepoint(_) => {
            reveal(session::savepoint_step);
        },
        Stmt::RollbackTo(name) => {
            reveal(session::rollback_to_step);
            if let Some(t) = w.s.txn {
                lemma_save_place(t.saves, name, t.saves.len() as int);
            }
        },
        Stmt::Release(name) => {
            reveal(session::release_step);
            if let Some(t) = w.s.txn {
                lemma_save_place(t.saves, name, t.saves.len() as int);
            }
        },
        _ => {},
    }
}

proof fn lemma_save_place(saves: Seq<SaveModel>, name: usize, below: int)
    ensures
        session::save_place(saves, name, below) matches Some(i) ==> 0 <= i < below && i
            < saves.len(),
    decreases below,
{
    if 0 < below <= saves.len() {
        lemma_save_place(saves, name, below - 1);
    }
}

/// Every statement of a session keeps the committed state and what the session
/// holds sound, whether it fails or not.
pub proof fn law_statements_keep_sound(w: World, stmt: Stmt)
    requires
        world_ok(w),
    ensures
        world_ok(session::step(w, stmt).w),
{
    let w1 = session::refreshed(w);
    assert(world_ok(w1));
    if stmt is Savepoint || stmt is RollbackTo || stmt is Release {
        lemma_savepoint_keeps_sound(w1, stmt);
    }
    if let Some(tag) = change::change_tag(stmt) {
        lemma_change_keeps_sound(w1, tag, stmt);
    }
    reveal(session::run);
    lemma_step_facts(w, stmt);
}

proof fn lemma_batch_keeps_sound(w: World, stmts: Stmts, acc: Seq<ReplyModel>)
    requires
        world_ok(w),
    ensures
        world_ok(session::batch(w, stmts, acc).w),
    decreases stmts,
{
    match stmts {
        Stmts::Nil => {},
        Stmts::Cons(stmt, rest) => {
            supply::law_supply_changes_the_table_alone(w, *stmt);
            law_statements_keep_sound(supply::supplied(w, *stmt), *stmt);
            let st = session::step(supply::supplied(w, *stmt), *stmt);
            match st.r {
                Err(_) => {},
                Ok(a) => {
                    lemma_batch_keeps_sound(
                        session::with_session(st.w, session::drained(st.w.s)),
                        *rest,
                        (acc + session::notice_replies(st.w.s.notices)).push(
                            ReplyModel::Answer(a),
                        ),
                    );
                },
            }
        },
    }
}

/// Whether the committed state of an engine and all that its sessions hold are
/// sound.
pub open spec fn engine_ok(e: EngineModel) -> bool {
    &&& validity::db_ok(e.g.committed)
    &&& forall|i: int| 0 <= i < e.sessions.len() ==> session_ok((#[trigger] e.sessions[i]).1)
}

/// A new engine is sound, and one over a store with a sound database is.
pub proof fn law_new_engine_is_sound(b: BuilderModel)
    requires
        b.store == engine::empty_store() || validity::db_ok(b.store.db),
    ensures
        engine_ok(engine::built(b)),
{
    validity::law_empty_is_sound();
}

/// Whatever text is sent to an engine, it stays sound.
pub proof fn law_execution_keeps_sound(e: EngineModel, id: u64, sql: Seq<char>)
    requires
        engine_ok(e),
    ensures
        engine_ok(engine::executed(e, id, sql).0),
{
    engine::lemma_session_place(e.sessions, id, 0);
    reveal(engine::text_run);
    if let Some(i) = engine::session_place(e.sessions, id, 0) {
        let w = World { g: e.g, s: e.sessions[i].1 };
        let lx = lexer::lexed(w.g.symbols, sql);
        let w1 = World { g: SharedModel { symbols: lx.table, ..w.g }, s: w.s };
        if let Ok(ts) = lx.tokens {
            if let Ok(stmts) = parser::parsed(ts) {
                lemma_batch_keeps_sound(w1, stmts, Seq::empty());
            }
        }
        let run = engine::text_run(w, sql);
        assert(world_ok(run.w));
    }
}

/// Whatever portal of an engine is executed, it stays sound.
pub proof fn law_portals_keep_sound(e: EngineModel, id: u64, name: Seq<char>, max: u64)
    requires
        engine_ok(e),
    ensures
        engine_ok(engine::executing(e, id, name, max).0),
{
    engine::lemma_session_place(e.sessions, id, 0);
    reveal(engine::executing);
    if let Some(i) = engine::session_place(e.sessions, id, 0) {
        let w = engine::world_at(engine::with_name(e, name), i);
        let n = symbols::number(e.g.symbols, name);
        assert(world_ok(w));
        if let Some(k) = portal::portal_place(w.s.portals, n, 0) {
            if let Some(statement) = w.s.portals[k].statement {
                if let Some(j) = prepared::prepared_place(e.prepared, id, statement, 0) {
                    let w1 = prepared::with_params(w, w.s.portals[k].params);
                    supply::law_supply_changes_the_table_alone(w1, e.prepared[j].stmt);
                    law_statements_keep_sound(
                        supply::supplied(w1, e.prepared[j].stmt),
                        e.prepared[j].stmt,
                    );
                }
            }
        }
        assert(world_ok(prepared::portal_run(w, e.prepared, id, n, max).0));
    }
}

/// A session that starts or ends leaves an engine sound.
pub proof fn law_sessions_keep_sound(e: EngineModel, p: StartupModel, id: u64)
    requires
        engine_ok(e),
    ensures
        engine_ok(engine::started(e, p).0),
        engine_ok(engine::terminated(e, id)),
{
    engine::lemma_session_place(e.sessions, id, 0);
    let after = engine::terminated(e, id);
    if let Some(i) = engine::session_place(e.sessions, id, 0) {
        assert forall|k: int| 0 <= k < after.sessions.len() implies session_ok(
            (#[trigger] after.sessions[k]).1,
        ) by {
            if k < i {
                assert(session_ok(e.sessions[k].1));
            } else {
                assert(session_ok(e.sessions[k + 1].1));
            }
        }
    }
}

} // verus!
