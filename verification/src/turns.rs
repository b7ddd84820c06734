//! Laws of statements that follow one another in a session: transactions and their modes,
//! savepoints, cursors, settings, roles that a session acts as, and blocks of code.

use vstd::prelude::*;
use crate::ast::Block;
use crate::ast::Direction;
use crate::ast::Idents;
use crate::ast::Query;
use crate::ast::Scope;
use crate::ast::Setting;
use crate::ast::Stmt;
use crate::ast::Stmts;
use crate::ast::TxnModes;
use crate::block;
use crate::catalog;
use crate::change;
use crate::fault::Fault;
use crate::fault::Tag;
use crate::notice::Notice;
use crate::portal;
use crate::portal::ContentModel;
use crate::portal::PortalModel;
use crate::results;
use crate::returning;
use crate::rights;
use crate::session;
use crate::session::AnswerModel;
use crate::session::Failure;
use crate::session::ReplyModel;
use crate::session::SaveModel;
use crate::session::World;
use crate::settings;
use crate::settings::Modes;
use crate::supply;
use crate::txn;

verus! {

/// Modes that are stated are set, and the others stay.
pub proof fn law_modes(m: Modes, o: TxnModes)
    ensures
        ({
            let n = settings::with_modes(m, o);
            &&& o.isolation matches Some(i) ==> n.isolation == i
            &&& o.isolation is None ==> n.isolation == m.isolation
            &&& o.read_only matches Some(b) ==> n.read_only == b
            &&& o.read_only is None ==> n.read_only == m.read_only
            &&& o.deferrable matches Some(b) ==> n.deferrable == b
            &&& o.deferrable is None ==> n.deferrable == m.deferrable
        }),
{
}

/// BEGIN starts a block on the committed state, with the modes that it states and otherwise
/// those of the session; what is set stays. In a block it only says that there is one.
pub proof fn law_begin(w: World, tag: Tag, m: TxnModes)
    requires
        !session::is_failed(w.s),
    ensures
        ({
            let st = session::step(w, Stmt::Begin(tag, m));
            &&& w.s.txn is None && txn::can_begin(w.g.manager) ==> {
                &&& st.r == Ok::<_, Failure>(AnswerModel::Command(tag, 0))
                &&& session::in_block(st.w.s)
                &&& !session::is_failed(st.w.s)
                &&& session::seen(st.w) == w.g.committed
                &&& st.w.g.committed == w.g.committed
                &&& st.w.s.vars == w.s.vars
                &&& st.w.s.portals == w.s.portals
                &&& st.w.s.txn->Some_0.saves.len() == 0
                &&& session::modes_of(st.w.s) == settings::with_modes(w.s.vars.modes, m)
            }
            &&& session::in_block(w.s) ==> {
                &&& st.r == Ok::<_, Failure>(AnswerModel::Command(tag, 0))
                &&& st.w.s.txn == session::refreshed(w).s.txn
                &&& st.w.s.notices == w.s.notices.push(Notice::AlreadyInTransaction)
                &&& st.w.g == w.g
            }
        }),
{
    reveal(session::run);
    reveal(session::begin_step);
}

/// COMMIT of a block that changed a state which is no longer the committed one is refused: its
/// changes are given up, and the committed state stays.
pub proof fn law_conflict(w: World)
    requires
        session::in_block(w.s),
        !session::is_failed(w.s),
        w.s.txn->Some_0.work.dirty,
        w.s.txn->Some_0.work.base != w.g.version,
    ensures
        ({
            let st = session::step(w, Stmt::Commit);
            &&& st.r == Err::<AnswerModel, _>(session::failure(Fault::Conflict))
            &&& st.w.s.txn is None
            &&& st.w.g.committed == w.g.committed
            &&& st.w.g.version == w.g.version
            &&& st.w.s.vars == w.s.txn->Some_0.before
        }),
{
    reveal(session::run);
    reveal(session::commit_step);
}

/// Of two transactions that changed the same state, the one that commits first wins: after it
/// the other meets a conflict.
pub proof fn law_first_commit_wins(w: World, other: World)
    requires
        session::in_block(w.s),
        !session::is_failed(w.s),
        w.s.txn->Some_0.work.dirty,
        w.s.txn->Some_0.work.base == w.g.version,
        session::in_block(other.s),
        !session::is_failed(other.s),
        other.s.txn->Some_0.work.dirty,
        other.s.txn->Some_0.work.base == w.g.version,
    ensures
        ({
            let first = session::step(w, Stmt::Commit);
            let second = session::step(World { g: first.w.g, s: other.s }, Stmt::Commit);
            &&& first.r is Ok
            &&& first.w.g.committed == session::seen(w)
            &&& second.r == Err::<AnswerModel, _>(session::failure(Fault::Conflict))
            &&& second.w.g.committed == session::seen(w)
        }),
{
    reveal(session::run);
    reveal(session::commit_step);
}

/// A name means the last savepoint that has it.
pub proof fn law_savepoint_name(saves: Seq<SaveModel>, name: usize, below: int)
    requires
        0 <= below <= saves.len(),
    ensures
        match session::save_place(saves, name, below) {
            Some(i) => {
                &&& 0 <= i < below
                &&& saves[i].name == name
                &&& forall|k: int| i < k < below ==> (#[trigger] saves[k]).name != name
            },
            None => forall|k: int| 0 <= k < below ==> (#[trigger] saves[k]).name != name,
        },
    decreases below,
{
    if below > 0 && saves[below - 1].name != name {
        law_savepoint_name(saves, name, below - 1);
    }
}

proof fn lemma_run_change(w: World, stmt: Stmt, tag: Tag)
    requires
        !session::is_failed(w.s),
        change::change_tag(stmt) == Some(tag),
    ensures
        session::run(w, stmt) == session::change_step(w, tag, stmt),
{
    reveal(session::run);
}

/// A statement that changes the database and succeeds in a transaction changes what its
/// session sees as the change says, and answers with the count or with the rows that are given
/// back; nothing is committed, and what is set stays.
pub proof fn law_change_in_a_block(w: World, stmt: Stmt, tag: Tag)
    requires
        session::in_block(w.s),
        !session::is_failed(w.s),
        !session::modes_of(w.s).read_only,
        change::change_tag(stmt) == Some(tag),
    ensures
        ({
            let cx = session::context(session::refreshed(w));
            let st = session::step(w, stmt);
            match (returning::returned(cx, stmt), change::changed(cx, w.g.config, stmt)) {
                (Ok(out), Ok(c)) => {
                    &&& session::seen(st.w) == c.db
                    &&& st.w.s.notices == w.s.notices + c.notices
                    &&& st.r == Ok::<_, Failure>(
                        match out {
                            None => AnswerModel::Command(tag, c.count),
                            Some((fs, rows)) => AnswerModel::Rows(fs, rows),
                        },
                    )
                    &&& st.w.s.vars == w.s.vars
                    &&& st.w.g == w.g
                    &&& st.w.s.txn->Some_0.work.dirty
                },
                _ => {
                    &&& st.r is Err
                    &&& session::seen(st.w) == session::seen(session::refreshed(w))
                    &&& session::is_failed(st.w.s)
                },
            }
        }),
{
    let v = session::refreshed(w);
    lemma_run_change(v, stmt, tag);
    reveal(session::change_step);
    assert(session::change_step(v, tag, stmt) == session::change_in_txn(v, tag, stmt));
}

proof fn lemma_portal_pushed(ps: Seq<PortalModel>, p: PortalModel, from: int)
    requires
        0 <= from <= ps.len(),
        portal::portal_place(ps, p.name, from) is None,
    ensures
        portal::portal_place(ps.push(p), p.name, from) == Some(ps.len() as int),
    decreases ps.len() - from,
{
    if from < ps.len() {
        assert(ps.push(p)[from] == ps[from]);
        lemma_portal_pushed(ps, p, from + 1);
    }
}

/// A cursor that is declared for a query and then fetched from to its end hands out the rows
/// that the query had when the cursor was declared.
pub proof fn law_declare_and_fetch(w: World, name: usize, q: Box<Query>)
    requires
        session::in_block(w.s),
        !session::is_failed(w.s),
        session::cursor_fault(w, name) is None,
    ensures
        ({
            let one = session::step(w, Stmt::Declare(name, Some(q)));
            let two = session::step(one.w, Stmt::Fetch(name, Direction::Forward(None)));
            let answer = session::query_answer(session::context(session::refreshed(w)), *q);
            &&& answer is Ok <==> one.r is Ok
            &&& answer is Ok ==> two.r == answer && one.w.g == w.g && one.w.s.vars == w.s.vars
        }),
{
    reveal(session::run);
    reveal(session::declare_step);
    reveal(session::fetch_step);
    reveal(session::query_answer);
    let v = session::refreshed(w);
    let one = session::step(w, Stmt::Declare(name, Some(q)));
    if let Ok(AnswerModel::Rows(fs, rows)) = session::query_answer(session::context(v), *q) {
        let p = one.w.s.portals[w.s.portals.len() as int];
        lemma_portal_pushed(w.s.portals, p, 0);
        assert(one.w.s.portals == w.s.portals.push(p));
        assert(rows.subrange(0, rows.len() as int) =~= rows);
    }
}

/// FETCH hands out rows of the cursor that is named, MOVE counts them, and both leave the
/// cursor in the same place; they change nothing else.
pub proof fn law_fetch_and_move(w: World, name: usize, d: Direction, k: int)
    requires
        !session::is_failed(w.s),
    ensures
        ({
            let a = session::step(w, Stmt::Fetch(name, d));
            let b = session::step(w, Stmt::Move(name, d));
            &&& a.r is Ok <==> b.r is Ok
            &&& a.r matches Ok(x) ==> {
                &&& a.w == b.w
                &&& a.w.g == w.g
                &&& session::seen(a.w) == session::seen(session::refreshed(w))
                &&& a.w.s.vars == w.s.vars
                &&& x matches AnswerModel::Rows(_, rows) && b.r == Ok::<_, Failure>(
                    AnswerModel::Moved(rows.len() as u64),
                )
                &&& portal::cursor_place(w.s.portals, name) matches Some(i) && {
                    &&& a.w.s.portals.len() == w.s.portals.len()
                    &&& 0 <= k < w.s.portals.len() && k != i ==> a.w.s.portals[k]
                        == w.s.portals[k]
                    &&& w.s.portals[i].content matches ContentModel::Rows(_, all) && {
                        let m = portal::motion(all.len() as int, w.s.portals[i].at as int, d);
                        &&& x matches AnswerModel::Rows(_, rows) && rows == portal::handed_out(
                            all,
                            m,
                        )
                        &&& a.w.s.portals[i].at == m.at as u128
                        &&& a.w.s.portals[i].content == w.s.portals[i].content
                    }
                }
            }
        }),
{
    reveal(session::run);
    reveal(session::fetch_step);
    lemma_cursor_place(w.s.portals, name, 0);
}

proof fn lemma_cursor_place(ps: Seq<PortalModel>, name: usize, from: int)
    requires
        0 <= from,
    ensures
        portal::portal_place(ps, name, from) matches Some(i) ==> from <= i < ps.len()
            && ps[i].name == name,
        portal::portal_place(ps, name, from) is None ==> forall|k: int|
            from <= k < ps.len() ==> (#[trigger] ps[k]).name != name,
    decreases ps.len() - from,
{
    if from < ps.len() && ps[from].name != name {
        lemma_cursor_place(ps, name, from + 1);
    }
}

/// A cursor that was closed is not there any more, and the other portals are.
pub proof fn law_close(w: World, name: usize)
    requires
        !session::is_failed(w.s),
        portal::cursor_place(w.s.portals, name) is Some,
        forall|a: int, b: int|
            0 <= a < b < w.s.portals.len() ==> (#[trigger] w.s.portals[a]).name != (
            #[trigger] w.s.portals[b]).name,
    ensures
        ({
            let st = session::step(w, Stmt::Close(name));
            let i = portal::cursor_place(w.s.portals, name)->Some_0;
            &&& st.r is Ok
            &&& st.w.s.portals == w.s.portals.take(i) + w.s.portals.skip(i + 1)
            &&& portal::cursor_place(st.w.s.portals, name) is None
            &&& st.w.g == w.g
        }),
{
    reveal(session::run);
    reveal(session::close_step);
    lemma_cursor_place(w.s.portals, name, 0);
    let i = portal::cursor_place(w.s.portals, name)->Some_0;
    let left = w.s.portals.remove(i);
    assert(left =~= w.s.portals.take(i) + w.s.portals.skip(i + 1));
    lemma_cursor_place(left, name, 0);
    if let Some(k) = portal::portal_place(left, name, 0) {
        if k < i {
            assert(left[k] == w.s.portals[k]);
            assert(w.s.portals[k].name != w.s.portals[i].name);
        } else {
            assert(left[k] == w.s.portals[k + 1]);
            assert(w.s.portals[i].name != w.s.portals[k + 1].name);
        }
    }
}

/// A session acts as the role that it was told to act as: its own always, another if there is
/// one of that name and the one who started the session may administer.
pub proof fn law_act_as(w: World, role: Option<usize>, tag: Tag)
    requires
        !session::is_failed(w.s),
        session::seen(session::refreshed(w)).roles.len() <= usize::MAX,
    ensures
        ({
            let st = session::step(w, Stmt::ActAs(role, tag));
            let rs = session::seen(session::refreshed(w)).roles;
            &&& st.r is Ok <==> (role matches Some(r) ==> r == w.s.user || rights::has_role(rs, r)
                && catalog::may_administer(rs, w.s.user))
            &&& st.r is Ok ==> {
                &&& session::acting(st.w.s) == if role is Some {
                    role->Some_0
                } else {
                    w.s.user
                }
                &&& session::seen(st.w) == session::seen(session::refreshed(w))
                &&& st.w.g == w.g
                &&& st.w.s.vars.settings == w.s.vars.settings
                &&& st.w.s.vars.path == w.s.vars.path
            }
            &&& st.r is Err ==> session::acting(st.w.s) == session::acting(w.s)
        }),
{
    reveal(session::run);
    reveal(session::act_step);
    if let Some(r) = role {
        rights::lemma_role_place(session::seen(session::refreshed(w)).roles, r, 0);
    }
}

/// SHOW shows the setting and changes nothing.
pub proof fn law_show(w: World, name: usize)
    requires
        !session::is_failed(w.s),
    ensures
        ({
            let st = session::step(w, Stmt::Show(name));
            match settings::shown(w.g.symbols, w.s.vars, session::modes_of(w.s), name) {
                Ok(text) => st.r == Ok::<_, Failure>(AnswerModel::Shown(name, text)) && st.w
                    == session::refreshed(w),
                Err(f) => st.r == Err::<AnswerModel, _>(session::failure(f)) && st.w.s.vars
                    == w.s.vars,
            }
        }),
{
    reveal(session::run);
    reveal(session::show_step);
}

/// What SET sets is set at once; in a block it stays set when the block is committed. With
/// LOCAL it is set only up to the end of the block.
pub proof fn law_set(w: World, local: bool, name: usize, value: Setting)
    requires
        session::in_block(w.s),
        !session::is_failed(w.s),
        session::step(w, Stmt::Assign(local, name, value)).r is Ok,
    ensures
        ({
            let st = session::step(w, Stmt::Assign(local, name, value));
            &&& settings::assigned_var(
                w.g.symbols,
                w.s.initial,
                w.s.vars,
                name,
                value,
            ) == Ok::<_, Fault>(st.w.s.vars)
            &&& !local ==> settings::assigned_var(
                w.g.symbols,
                w.s.initial,
                w.s.txn->Some_0.kept,
                name,
                value,
            ) == Ok::<_, Fault>(session::kept(st.w).s.vars)
            &&& local ==> session::kept(st.w).s.vars == w.s.txn->Some_0.kept
            &&& session::undone(st.w).s.vars == w.s.txn->Some_0.before
        }),
{
    reveal(session::run);
    reveal(session::assign_step);
}

/// Outside of a transaction SET and RESET change what is set, and RESET brings back what was
/// set in the beginning.
pub proof fn law_set_outside(w: World, name: usize, value: Setting)
    requires
        w.s.txn is None,
    ensures
        ({
            let st = session::step(w, Stmt::Assign(false, name, value));
            match settings::assigned_var(w.g.symbols, w.s.initial, w.s.vars, name, value) {
                Ok(vars) => st.r is Ok && st.w.s.vars == vars && st.w.g == w.g,
                Err(f) => st.r == Err::<AnswerModel, _>(session::failure(f)) && st.w.s.vars
                    == w.s.vars,
            }
        }),
        ({
            let st = session::step(w, Stmt::Reset(name));
            match settings::assigned_var(
                w.g.symbols,
                w.s.initial,
                w.s.vars,
                name,
                Setting::Default,
            ) {
                Ok(vars) => st.r is Ok && st.w.s.vars == vars && st.w.g == w.g,
                Err(f) => st.r == Err::<AnswerModel, _>(session::failure(f)) && st.w.s.vars
                    == w.s.vars,
            }
        }),
{
    reveal(session::run);
    reveal(session::assign_step);
}

/// SET TRANSACTION sets modes of the block and not those of later ones; the characteristics of
/// a session are the modes of later blocks and not of the one that there is.
pub proof fn law_set_modes(w: World, m: TxnModes)
    requires
        session::in_block(w.s),
        !session::is_failed(w.s),
    ensures
        ({
            let st = session::step(w, Stmt::SetModes(Scope::Transaction, m));
            &&& st.r is Ok
            &&& session::modes_of(st.w.s) == settings::with_modes(session::modes_of(w.s), m)
            &&& st.w.s.vars.modes == w.s.vars.modes
            &&& session::kept(st.w).s.vars.modes == w.s.txn->Some_0.kept.modes
        }),
        ({
            let st = session::step(w, Stmt::SetModes(Scope::Session, m));
            &&& st.r is Ok
            &&& session::modes_of(st.w.s) == session::modes_of(w.s)
            &&& session::kept(st.w).s.vars.modes == settings::with_modes(
                w.s.txn->Some_0.kept.modes,
                m,
            )
        }),
{
    reveal(session::run);
    reveal(session::set_modes_step);
    reveal(session::session_modes_step);
}

proof fn lemma_said(v: Seq<Notice>, said: Idents, k: int)
    ensures
        ({
            let out = session::with_said(v, said);
            &&& out.len() == v.len() + results::idents_len(said)
            &&& 0 <= k < v.len() ==> out[k] == v[k]
            &&& v.len() <= k < out.len() ==> out[k] == Notice::Said(
                results::ident_at(said, k - v.len()),
            )
        }),
    decreases said,
{
    if let Idents::Cons(s, rest) = said {
        lemma_said(v.push(Notice::Said(s)), *rest, k);
        if k > v.len() {
            assert(results::ident_at(said, k - v.len()) == results::ident_at(
                *rest,
                k - v.len() - 1,
            ));
        }
    }
}

/// A block of code changes neither the database nor what is set: what it says is added to the
/// messages, in its order.
pub proof fn law_do(w: World, b: Box<Block>, k: int)
    requires
        !session::is_failed(w.s),
    ensures
        ({
            let st = session::step(w, Stmt::Do(b));
            &&& st.w.g == w.g
            &&& session::seen(st.w) == session::seen(session::refreshed(w))
            &&& st.w.s.vars == w.s.vars
            &&& match block::block(session::context(session::refreshed(w)), *b) {
                Ok(ran) => {
                    &&& st.r == Ok::<_, Failure>(AnswerModel::Command(Tag::Do, 0))
                    &&& st.w.s.notices.len() == w.s.notices.len() + results::idents_len(ran.said)
                    &&& 0 <= k < w.s.notices.len() ==> st.w.s.notices[k] == w.s.notices[k]
                    &&& 0 <= k < results::idents_len(ran.said) ==> st.w.s.notices[w.s.notices.len()
                        + k] == Notice::Said(results::ident_at(ran.said, k))
                },
                Err(f) => st.r == Err::<AnswerModel, _>(session::failure(f)) && st.w.s.notices
                    == w.s.notices,
            }
        }),
{
    reveal(session::run);
    reveal(session::block_step);
    if let Ok(ran) = block::block(session::context(session::refreshed(w)), *b) {
        lemma_said(w.s.notices, ran.said, k);
        lemma_said(w.s.notices, ran.said, w.s.notices.len() + k);
    }
}

/// How many statements are sent together.
pub open spec fn stmts_len(stmts: Stmts) -> nat
    decreases stmts,
{
    match stmts {
        Stmts::Nil => 0,
        Stmts::Cons(_, rest) => 1 + stmts_len(*rest),
    }
}

/// The answers among replies.
pub open spec fn answers(rs: Seq<ReplyModel>) -> Seq<ReplyModel> {
    rs.filter(|r: ReplyModel| r is Answer)
}

proof fn lemma_no_answers(ns: Seq<Notice>)
    ensures
        answers(session::notice_replies(ns)).len() == 0,
    decreases ns.len(),
{
    reveal(Seq::filter);
    let rs = session::notice_replies(ns);
    if ns.len() > 0 {
        lemma_no_answers(ns.drop_last());
        assert(rs.drop_last() =~= session::notice_replies(ns.drop_last()));
        assert(rs.last() == ReplyModel::Notice(ns.last()));
    }
}

proof fn lemma_one_more_answer(acc: Seq<ReplyModel>, ns: Seq<Notice>, a: AnswerModel)
    ensures
        answers((acc + session::notice_replies(ns)).push(ReplyModel::Answer(a))) == answers(
            acc,
        ).push(ReplyModel::Answer(a)),
{
    let p = |r: ReplyModel| r is Answer;
    let front = acc + session::notice_replies(ns);
    let all = front.push(ReplyModel::Answer(a));
    Seq::filter_distributes_over_add(acc, session::notice_replies(ns), p);
    lemma_no_answers(ns);
    assert(answers(front) =~= answers(acc));
    reveal(Seq::filter);
    assert(all.drop_last() =~= front);
}

/// Statements that are sent together and all succeed are answered one by one, each once and in
/// their order: the first answer is that of the first statement.
pub proof fn law_answers_in_turn(w: World, stmts: Stmts, acc: Seq<ReplyModel>)
    ensures
        session::batch(w, stmts, acc).r matches Ok(rs) ==> {
            &&& answers(rs).len() == answers(acc).len() + stmts_len(stmts)
            &&& answers(rs).take(answers(acc).len() as int) == answers(acc)
            &&& stmts matches Stmts::Cons(stmt, _) ==> (session::step(
                supply::supplied(w, *stmt),
                *stmt,
            ).r matches Ok(a) && answers(rs)[answers(acc).len() as int] == ReplyModel::Answer(a))
        },
    decreases stmts,
{
    match stmts {
        Stmts::Nil => {
            assert(answers(acc).take(answers(acc).len() as int) =~= answers(acc));
        },
        Stmts::Cons(stmt, rest) => {
            let st = session::step(supply::supplied(w, *stmt), *stmt);
            if let Ok(a) = st.r {
                let next = (acc + session::notice_replies(st.w.s.notices)).push(
                    ReplyModel::Answer(a),
                );
                let v = session::with_session(st.w, session::drained(st.w.s));
                law_answers_in_turn(v, *rest, next);
                lemma_one_more_answer(acc, st.w.s.notices, a);
                if let Ok(rs) = session::batch(w, stmts, acc).r {
                    let n = answers(acc).len() as int;
                    assert(answers(next).len() == n + 1);
                    assert(answers(rs).take(n) =~= answers(rs).take(n + 1).take(n));
                    assert(answers(next).take(n) =~= answers(acc));
                    assert(answers(rs)[n] == answers(rs).take(n + 1)[n]);
                }
            }
        },
    }
}

} // verus!
