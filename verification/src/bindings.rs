//! Laws of prepared statements, of the values that clients give for their parameters, and of
//! portals that are bound to them.

use vstd::prelude::*;
use crate::analyze::Params;
use crate::auth;
use crate::auth::StartupModel;
use crate::datum;
use crate::datum::DataType;
use crate::datum::Tuple;
use crate::engine;
use crate::engine::EngineModel;
use crate::lexer;
use crate::lexer::Tok;
use crate::parser;
use crate::portal;
use crate::portal::ContentModel;
use crate::portal::PortalModel;
use crate::prepared;
use crate::prepared::Prepared;
use crate::session::World;
use crate::symbols;
use crate::value;
use crate::value::ValueModel;

verus! {

/// A name means the first statement that its session prepared under it; those of other
/// sessions do not count.
pub proof fn law_prepared_name(ps: Seq<Prepared>, owner: u64, name: usize, from: int)
    requires
        0 <= from,
    ensures
        match prepared::prepared_place(ps, owner, name, from) {
            Some(i) => {
                &&& from <= i < ps.len()
                &&& ps[i].owner == owner && ps[i].name == name
                &&& forall|k: int|
                    from <= k < i ==> !((#[trigger] ps[k]).owner == owner && ps[k].name == name)
            },
            None => forall|k: int|
                from <= k < ps.len() ==> !((#[trigger] ps[k]).owner == owner && ps[k].name
                    == name),
        },
    decreases ps.len() - from,
{
    if from < ps.len() && !(ps[from].owner == owner && ps[from].name == name) {
        law_prepared_name(ps, owner, name, from + 1);
    }
}

/// When a session ends, its prepared statements go and those of the others stay, in their
/// order.
pub proof fn law_statements_of_others(ps: Seq<Prepared>, owner: u64)
    ensures
        prepared::of_others(ps, owner) == ps.filter(|p: Prepared| p.owner != owner),
    decreases ps.len(),
{
    reveal(Seq::filter);
    if ps.len() > 0 {
        law_statements_of_others(ps.drop_last(), owner);
    }
}

/// A statement has as many parameters as the highest number says that one of its tokens has.
pub proof fn law_number_of_parameters(ts: Seq<Tok>, n: int)
    requires
        0 <= n <= ts.len(),
    ensures
        forall|i: int|
            0 <= i < n ==> ((#[trigger] ts[i]) matches Tok::Param(k) ==> k
                <= prepared::highest_param(ts, n)),
        prepared::highest_param(ts, n) == 0 || exists|i: int|
            0 <= i < n && #[trigger] ts[i] == Tok::Param(prepared::highest_param(ts, n)),
    decreases n,
{
    if n > 0 {
        law_number_of_parameters(ts, n - 1);
        assert forall|i: int| 0 <= i < n implies ((#[trigger] ts[i]) matches Tok::Param(k) ==> k
            <= prepared::highest_param(ts, n)) by {
            if i == n - 1 {
                assert(ts[n - 1] == ts[i]);
            }
        }
        if prepared::highest_param(ts, n) != 0 {
            if prepared::highest_param(ts, n) == prepared::highest_param(ts, n - 1) {
                let i = choose|i: int|
                    0 <= i < n - 1 && #[trigger] ts[i] == Tok::Param(
                        prepared::highest_param(ts, n - 1),
                    );
                assert(ts[i] == Tok::Param(prepared::highest_param(ts, n)));
            } else {
                assert(ts[n - 1] == Tok::Param(prepared::highest_param(ts, n)));
            }
        }
    }
}

/// The values that a client gives are the values that its statement sees: shown again, they
/// are what was given, in the same order.
pub proof fn law_values_taken(t: Seq<Seq<char>>, vs: Seq<ValueModel>, from: int, k: int)
    requires
        t.no_duplicates(),
        0 <= from <= vs.len(),
        t.len() + (vs.len() - from) < usize::MAX,
    ensures
        ({
            let (after, row) = prepared::taken(t, vs, from);
            &&& t.is_prefix_of(after)
            &&& after.no_duplicates()
            &&& after.len() <= t.len() + (vs.len() - from)
            &&& datum::tuple_len(row) == vs.len() - from
            &&& 0 <= k < vs.len() - from ==> value::rendered_value(
                after,
                datum::cell(row, k as nat),
            ) == vs[from + k]
        }),
    decreases vs.len() - from,
{
    if from < vs.len() {
        let (t1, d) = prepared::taken_value(t, vs[from]);
        if let ValueModel::Text(s) = vs[from] {
            symbols::law_entered(t, s);
        }
        law_values_taken(t1, vs, from + 1, k - 1);
        let (t2, rest) = prepared::taken(t1, vs, from + 1);
        let row = prepared::taken(t, vs, from).1;
        assert(datum::cell(row, 0) == d);
        if let ValueModel::Text(s) = vs[from] {
            let i = symbols::number(t, s) as int;
            assert(t2[i] == t1[i]);
        }
        if k > 0 {
            assert(datum::cell(row, k as nat) == datum::cell(rest, (k - 1) as nat));
        }
    }
}

/// Values can be given for parameters exactly if each suits the type of the parameter at its
/// place.
pub proof fn law_suited(types: Seq<DataType>, values: Tuple, at: int)
    requires
        0 <= at,
    ensures
        prepared::unsuited(types, values, at) is None <==> forall|k: int|
            0 <= k < datum::tuple_len(values) && at + k < types.len() ==> prepared::suits(
                types[at + k],
                #[trigger] datum::cell(values, k as nat),
            ),
    decreases values,
{
    if let Tuple::Cons(d, rest) = values {
        law_suited(types, *rest, at + 1);
        assert(datum::cell(values, 0) == d);
        assert forall|k: int| 1 <= k implies #[trigger] datum::cell(values, k as nat)
            == datum::cell(*rest, (k - 1) as nat) by {}
        if prepared::unsuited(types, values, at) is None {
            assert forall|k: int|
                0 <= k < datum::tuple_len(values) && at + k < types.len() implies prepared::suits(
                types[at + k],
                #[trigger] datum::cell(values, k as nat),
            ) by {
                if k > 0 {
                    assert(datum::cell(values, k as nat) == datum::cell(*rest, (k - 1) as nat));
                    assert(prepared::suits(
                        types[at + 1 + (k - 1)],
                        datum::cell(*rest, (k - 1) as nat),
                    ));
                }
            }
        }
        if forall|k: int|
            0 <= k < datum::tuple_len(values) && at + k < types.len() ==> prepared::suits(
                types[at + k],
                #[trigger] datum::cell(values, k as nat),
            ) {
            let first: int = 0;
            assert(datum::cell(values, first as nat) == d);
            assert(at < types.len() ==> prepared::suits(
                types[at + first],
                datum::cell(values, first as nat),
            ));
            assert forall|k: int|
                0 <= k < datum::tuple_len(*rest) && at + 1 + k < types.len() implies prepared::suits(
                types[at + 1 + k],
                #[trigger] datum::cell(*rest, k as nat),
            ) by {
                assert(datum::cell(values, (k + 1) as nat) == datum::cell(*rest, k as nat));
                assert(prepared::suits(
                    types[at + (k + 1)],
                    datum::cell(values, (k + 1) as nat),
                ));
            }
        }
    }
}

/// A portal that is bound waits with the values that were given, takes the place of one of the
/// same name, and leaves the others; the statement is there and has as many parameters as
/// values were given.
pub proof fn law_bound(
    w: World,
    ps: Seq<Prepared>,
    owner: u64,
    name: usize,
    statement: usize,
    values: Tuple,
    count: u64,
)
    ensures
        prepared::bound(w, ps, owner, name, statement, values, count).1 is Ok ==> {
            let after = prepared::bound(w, ps, owner, name, statement, values, count).0;
            let last = after.portals.len() - 1;
            &&& prepared::prepared_place(ps, owner, statement, 0) matches Some(j) && ps[j].params
                == count
            &&& last >= 0
            &&& after.portals[last] == (PortalModel {
                name,
                born: w.s.next_portal,
                statement: Some(statement),
                params: Params::Given(values),
                content: ContentModel::Waiting,
                at: 0,
            })
            &&& match portal::portal_place(w.s.portals, name, 0) {
                None => after.portals.drop_last() == w.s.portals,
                Some(i) => after.portals.drop_last() == w.s.portals.remove(i),
            }
            &&& after.vars == w.s.vars
            &&& after.txn == w.s.txn
        },
{
    let after = prepared::bound(w, ps, owner, name, statement, values, count).0;
    if prepared::bound(w, ps, owner, name, statement, values, count).1 is Ok {
        assert(after.portals.drop_last() =~= prepared::without_portal(w.s.portals, name));
    }
}

/// A client whose request is granted gets a session of its own, with a new number and no
/// transaction, beside those that there are, and its failures are forgotten. One whose request
/// is refused gets none. The committed state stays in any case.
pub proof fn law_session_started(e: EngineModel, p: StartupModel)
    ensures
        ({
            let (after, r) = engine::started(e, p);
            let (t, user, _) = engine::startup_names(e.g.symbols, p);
            &&& after.g.committed == e.g.committed
            &&& after.prepared == e.prepared
            &&& r is Err ==> after.sessions == e.sessions
            &&& r matches Ok((id, u)) ==> {
                let s = after.sessions[e.sessions.len() as int].1;
                &&& id == e.next && u == user
                &&& after.next == e.next + 1
                &&& after.sessions.len() == e.sessions.len() + 1
                &&& after.sessions.drop_last() == e.sessions
                &&& after.sessions[e.sessions.len() as int].0 == id
                &&& s.user == user && s.txn is None && s.portals.len() == 0
                    && s.notices.len() == 0
                &&& auth::login_fault(e.g.committed, t, e.open, user, p.password) is None
                &&& !auth::is_locked(e.attempts, e.g.config, user, e.clock)
                &&& after.attempts == auth::without_failures(e.attempts, user)
            }
        }),
{
    let after = engine::started(e, p).0;
    if engine::started(e, p).1 is Ok {
        assert(after.sessions.drop_last() =~= e.sessions);
    }
}

/// A user who is locked out is refused whatever the password, and that does not count. A
/// password over a connection that is not encrypted is refused where that is asked for, and
/// does not count either. A wrong one counts.
pub proof fn law_session_refused(e: EngineModel, p: StartupModel)
    ensures
        ({
            let (after, r) = engine::started(e, p);
            let (t, user, _) = engine::startup_names(e.g.symbols, p);
            let locked = auth::is_locked(e.attempts, e.g.config, user, e.clock);
            let bare = e.g.config.require_tls_for_password && p.password is Some && p.network
                == Some(false);
            &&& locked ==> r is Err && after.attempts == e.attempts
            &&& bare ==> r is Err && after.attempts == e.attempts
            &&& !locked && !bare && auth::login_fault(
                e.g.committed,
                t,
                e.open,
                user,
                p.password,
            ) is Some ==> r is Err && after.attempts == auth::with_failure(
                e.attempts,
                user,
                e.clock,
                e.g.config.auth_lockout_window,
            )
        }),
{
}

/// A session that ends is gone, with its prepared statements and what it has not committed;
/// the other sessions, their prepared statements and the committed state stay.
pub proof fn law_session_ended(e: EngineModel, id: u64, k: int)
    requires
        forall|a: int, b: int|
            0 <= a < b < e.sessions.len() ==> (#[trigger] e.sessions[a]).0 != (
            #[trigger] e.sessions[b]).0,
    ensures
        ({
            let after = engine::terminated(e, id);
            &&& after.g.committed == e.g.committed
            &&& after.g.version == e.g.version
            &&& engine::session_of(after, id) is None
            &&& 0 <= k < e.sessions.len() && e.sessions[k].0 != id ==> after.sessions.contains(
                e.sessions[k],
            )
            &&& engine::session_of(e, id) is Some ==> after.prepared == e.prepared.filter(
                |q: Prepared| q.owner != id,
            )
        }),
{
    let after = engine::terminated(e, id);
    law_statements_of_others(e.prepared, id);
    lemma_session_place(e, id, 0);
    lemma_session_place(after, id, 0);
    if let Some(i) = engine::session_place(e.sessions, id, 0) {
        if let Some(j) = engine::session_place(after.sessions, id, 0) {
            if j < i {
                assert(after.sessions[j] == e.sessions[j]);
                assert(e.sessions[j].0 != e.sessions[i].0);
            } else {
                assert(after.sessions[j] == e.sessions[j + 1]);
                assert(e.sessions[i].0 != e.sessions[j + 1].0);
            }
        }
        if 0 <= k < e.sessions.len() && e.sessions[k].0 != id {
            if k < i {
                assert(after.sessions[k] == e.sessions[k]);
            } else {
                assert(after.sessions[k - 1] == e.sessions[k]);
            }
        }
    } else if 0 <= k < e.sessions.len() {
        assert(after.sessions[k] == e.sessions[k]);
    }
}

proof fn lemma_session_place(e: EngineModel, id: u64, from: int)
    requires
        0 <= from,
    ensures
        match engine::session_place(e.sessions, id, from) {
            Some(i) => from <= i < e.sessions.len() && e.sessions[i].0 == id,
            None => forall|k: int|
                from <= k < e.sessions.len() ==> (#[trigger] e.sessions[k]).0 != id,
        },
    decreases e.sessions.len() - from,
{
    if from < e.sessions.len() && e.sessions[from].0 != id {
        lemma_session_place(e, id, from + 1);
    }
}

/// A text that cannot be read is not carried out in part: it is answered with an error, and
/// the committed state stays.
pub proof fn law_read_before_run(e: EngineModel, id: u64, sql: Seq<char>)
    requires
        match lexer::lexed(e.g.symbols, sql).tokens {
            Err(_) => true,
            Ok(ts) => parser::parsed(ts) is Err,
        },
    ensures
        engine::executed(e, id, sql).0.g.committed == e.g.committed,
        engine::executed(e, id, sql).0.g.version == e.g.version,
        engine::executed(e, id, sql).1 is Err,
{
    reveal(engine::text_run);
}

/// A prepared statement that is closed is gone, and all others stay.
pub proof fn law_statement_closed(e: EngineModel, id: u64, name: usize)
    requires
        engine::session_of(e, id) is Some,
        prepared::prepared_place(e.prepared, id, name, 0) is Some,
    ensures
        ({
            let (after, r) = engine::closing(e, id, name);
            let j = prepared::prepared_place(e.prepared, id, name, 0)->Some_0;
            &&& r is Ok
            &&& after.prepared == e.prepared.take(j) + e.prepared.skip(j + 1)
            &&& e.prepared[j].owner == id && e.prepared[j].name == name
            &&& after.g == e.g
        }),
{
    law_prepared_name(e.prepared, id, name, 0);
    let j = prepared::prepared_place(e.prepared, id, name, 0)->Some_0;
    assert(e.prepared.remove(j) =~= e.prepared.take(j) + e.prepared.skip(j + 1));
}

} // verus!
