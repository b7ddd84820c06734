//! The texts that the functions of a statement make, entered before it runs.

use vstd::prelude::*;
use crate::analyze;
use crate::analyze::Cx;
use crate::analyze::CxModel;
use crate::analyze::Named;
use crate::ast::IsolationLevel;
use crate::ast::Query;
use crate::ast::Stmt;
use crate::catalog::Db;
use crate::block;
use crate::change;
use crate::dml;
use crate::eval;
use crate::fault::Fault;
use crate::fields::Env;
use crate::returning;
use crate::session;
use crate::session::Session;
use crate::session::Shared;
use crate::session::SharedModel;
use crate::session::World;
use crate::strings;
use crate::strings::NewText;
use crate::symbols;
use crate::upsert;

verus! {

/// The text whose lack a fault reports.
pub open spec fn lacked(f: Fault) -> Option<NewText> {
    match f {
        Fault::Unentered { text } => Some(text),
        _ => None,
    }
}

fn lack(f: Fault) -> (r: Option<NewText>)
    ensures
        r == lacked(f),
{
    match f {
        Fault::Unentered { text } => Some(text),
        _ => None,
    }
}

/// The first text that a query makes and that is not entered.
pub open spec fn query_lacks(cx: CxModel, q: Query) -> Option<NewText> {
    match analyze::query_fields(cx, Env::Empty, q) {
        Err(f) => lacked(f),
        Ok(_) => match eval::query_rows(cx, Env::Empty, q) {
            Err(f) => lacked(f),
            Ok(_) => None,
        },
    }
}

fn query_lack(cx: &Cx, q: &Query) -> (r: Option<NewText>)
    ensures
        r == query_lacks(cx@, *q),
{
    match analyze::infer_query_fields(cx, &Env::Empty, q) {
        Err(f) => lack(f),
        Ok(_) => match eval::eval_query_rows(cx, &Env::Empty, q) {
            Err(f) => lack(f),
            Ok(_) => None,
        },
    }
}

/// The first text that a statement makes and that is not entered.
#[verifier::opaque]
pub open spec fn lacks(cx: CxModel, stmt: Stmt) -> Option<NewText> {
    match stmt {
        Stmt::Query(q) => query_lacks(cx, *q),
        Stmt::Declare(_, Some(q)) => query_lacks(cx, *q),
        Stmt::Insert(n, names, feed) => match change::open_table(cx, n, change::inserting()) {
            Err(_) => None,
            Ok(i) => match dml::inserted(cx, cx.db.tables[i as int], *names, *feed) {
                Err(f) => lacked(f),
                Ok(_) => None,
            },
        },
        Stmt::Upsert(n, names, feed, action) => match change::open_table(
            cx,
            n,
            change::upserting(*action),
        ) {
            Err(_) => None,
            Ok(i) => match upsert::upserted(
                cx,
                cx.db.tables[i as int],
                *names,
                *feed,
                *action,
            ) {
                Err(f) => lacked(f),
                Ok(_) => None,
            },
        },
        Stmt::Update(n, assigns, filter) => match change::open_table(cx, n, change::updating()) {
            Err(_) => None,
            Ok(i) => match dml::updated(cx, cx.db.tables[i as int], *assigns, *filter) {
                Err(f) => lacked(f),
                Ok(_) => None,
            },
        },
        Stmt::Do(b) => match block::block(cx, *b) {
            Err(f) => lacked(f),
            Ok(_) => None,
        },
        Stmt::Returning(_, _) | Stmt::Draw(_) => match returning::returned(cx, stmt) {
            Err(f) => lacked(f),
            Ok(_) => None,
        },
        Stmt::Delete(n, filter) => match change::open_table(cx, n, change::deleting()) {
            Err(_) => None,
            Ok(i) => match dml::deleted(cx, cx.db.tables[i as int], *filter) {
                Err(f) => lacked(f),
                Ok(_) => None,
            },
        },
        _ => None,
    }
}

fn find_lack(cx: &Cx, stmt: &Stmt) -> (r: Option<NewText>)
    ensures
        r == lacks(cx@, *stmt),
{
    proof {
        reveal(lacks);
    }
    match stmt {
        Stmt::Query(q) => query_lack(cx, q),
        Stmt::Declare(_, Some(q)) => query_lack(cx, q),
        Stmt::Insert(n, names, feed) => match change::find_open_table(cx, *n, change::to_insert()) {
            Err(_) => None,
            Ok(i) => match dml::insert(cx, &cx.db.tables[i], names, feed) {
                Err(f) => lack(f),
                Ok(_) => None,
            },
        },
        Stmt::Upsert(n, names, feed, action) => match change::find_open_table(
            cx,
            *n,
            change::to_upsert(action),
        ) {
            Err(_) => None,
            Ok(i) => match upsert::upsert(cx, &cx.db.tables[i], names, feed, action) {
                Err(f) => lack(f),
                Ok(_) => None,
            },
        },
        Stmt::Update(n, assigns, filter) => match change::find_open_table(
            cx,
            *n,
            change::to_update(),
        ) {
            Err(_) => None,
            Ok(i) => match dml::update(cx, &cx.db.tables[i], assigns, filter) {
                Err(f) => lack(f),
                Ok(_) => None,
            },
        },
        Stmt::Do(b) => match block::run_block(cx, b) {
            Err(f) => lack(f),
            Ok(_) => None,
        },
        Stmt::Returning(_, _) | Stmt::Draw(_) => match returning::find_returned(cx, stmt) {
            Err(f) => lack(f),
            Ok(_) => None,
        },
        Stmt::Delete(n, filter) => match change::find_open_table(cx, *n, change::to_delete()) {
            Err(_) => None,
            Ok(i) => match dml::delete(cx, &cx.db.tables[i], filter) {
                Err(f) => lack(f),
                Ok(_) => None,
            },
        },
        _ => None,
    }
}

/// A world with another table of names and texts.
pub open spec fn with_table(w: World, t: Seq<Seq<char>>) -> World {
    World { g: SharedModel { symbols: t, ..w.g }, s: w.s }
}

/// A world in which the texts are entered, one after the other, that a statement
/// makes.
pub open spec fn supplied(w: World, stmt: Stmt) -> World
    decreases usize::MAX - w.g.symbols.len(),
{
    match lacks(session::context(session::refreshed(w)), stmt) {
        None => w,
        Some(x) => {
            let t = symbols::entered(w.g.symbols, strings::made(w.g.symbols, x));
            if w.g.symbols.len() < t.len() <= usize::MAX {
                supplied(with_table(w, t), stmt)
            } else {
                w
            }
        },
    }
}

/// The state that a statement of a session sees.
fn state_seen<'a>(g: &'a Shared, s: &'a Session) -> (db: &'a Db)
    ensures
        db@ == session::seen(session::refreshed(World { g: g@, s: s@ })),
{
    match &s.txn {
        None => &g.committed,
        Some(t) => if !t.work.dirty && t.modes.isolation == IsolationLevel::ReadCommitted {
            &g.committed
        } else {
            &t.work.db
        },
    }
}

fn next_lack(g: &Shared, s: &Session, stmt: &Stmt) -> (r: Option<NewText>)
    ensures
        r == lacks(session::context(session::refreshed(World { g: g@, s: s@ })), *stmt),
{
    let cx: Cx = Cx {
        db: state_seen(g, s),
        symbols: &g.symbols,
        path: &s.vars.path,
        user: session::acting_role(s),
        params: &s.params,
        named: &Named::Nil,
    };
    find_lack(&cx, stmt)
}

/// Enters the texts that a statement makes.
pub fn supply(g: &mut Shared, s: &Session, stmt: &Stmt)
    requires
        symbols::is_table(old(g)@.symbols),
    ensures
        final(g)@ == supplied(World { g: old(g)@, s: s@ }, *stmt).g,
        symbols::is_table(final(g)@.symbols),
{
    let ghost w0 = World { g: g@, s: s@ };
    loop
        invariant
            symbols::is_table(g@.symbols),
            supplied(w0, *stmt) == supplied(World { g: g@, s: s@ }, *stmt),
        ensures
            symbols::is_table(g@.symbols),
            g@ == supplied(w0, *stmt).g,
        decreases usize::MAX - g@.symbols.len(),
    {
        let ghost w = World { g: g@, s: s@ };
        match next_lack(g, s, stmt) {
            None => {
                break ;
            },
            Some(x) => {
                let before: usize = g.symbols.len();
                let chars: Vec<char> = strings::make(&g.symbols, x);
                let _: usize = g.symbols.enter(chars);
                let after: usize = g.symbols.len();
                assert(g@ =~= with_table(
                    w,
                    symbols::entered(w.g.symbols, strings::made(w.g.symbols, x)),
                ).g);
                if after <= before {
                    assert(g@ == w.g);
                    break ;
                }
            },
        }
    }
}

/// Supplying texts changes nothing but the table, which keeps what it held.
pub proof fn law_supply_changes_the_table_alone(w: World, stmt: Stmt)
    ensures
        supplied(w, stmt) == with_table(w, supplied(w, stmt).g.symbols),
        w.g.symbols.is_prefix_of(supplied(w, stmt).g.symbols),
    decreases usize::MAX - w.g.symbols.len(),
{
    match lacks(session::context(session::refreshed(w)), stmt) {
        None => {},
        Some(x) => {
            let t = symbols::entered(w.g.symbols, strings::made(w.g.symbols, x));
            if w.g.symbols.len() < t.len() <= usize::MAX {
                law_supply_changes_the_table_alone(with_table(w, t), stmt);
            }
        },
    }
}

} // verus!
