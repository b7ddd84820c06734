//! Prepared statements, and portals that execute them.

use vstd::prelude::*;
use crate::analyze;
use crate::analyze::Cx;
use crate::analyze::Named;
use crate::analyze::Params;
use crate::ast::Direction;
use crate::ast::Query;
use crate::ast::Stmt;
use crate::ast::Stmts;
use crate::catalog::Db;
use crate::change;
use crate::datum;
use crate::datum::DataType;
use crate::datum::Datum;
use crate::datum::Tuple;
use crate::fault;
use crate::fault::Fault;
use crate::fault::Tag;
use crate::fields::Env;
use crate::fields::Fields;
use crate::hints;
use crate::lexer;
use crate::lexer::Tok;
use crate::parser;
use crate::portal;
use crate::returning;
use crate::portal::Content;
use crate::portal::ContentModel;
use crate::portal::Portal;
use crate::portal::PortalModel;
use crate::session;
use crate::session::Answer;
use crate::session::AnswerModel;
use crate::session::Failure;
use crate::session::Reply;
use crate::session::ReplyModel;
use crate::session::Session;
use crate::session::SessionModel;
use crate::session::Shared;
use crate::session::SharedModel;
use crate::session::Step;
use crate::session::World;
use crate::supply;
use crate::symbols;
use crate::symbols::Symbols;
use crate::text;
use crate::value;
use crate::value::ColumnModel;
use crate::value::ResultColumn;
use crate::value::ResultModel;
use crate::value::Row;
use crate::value::StatementResult;
use crate::value::Value;
use crate::value::ValueModel;

verus! {

/// A prepared statement of the session with number `owner`, and the highest number
/// of a parameter in it.
pub struct Prepared {
    pub owner: u64,
    pub name: usize,
    pub stmt: Stmt,
    pub params: u64,
}

/// The first place at or after `from` of a prepared statement of a session.
pub open spec fn prepared_place(
    ps: Seq<Prepared>,
    owner: u64,
    name: usize,
    from: int,
) -> Option<int>
    decreases ps.len() - from,
{
    if from < 0 || from >= ps.len() {
        None
    } else if ps[from].owner == owner && ps[from].name == name {
        Some(from)
    } else {
        prepared_place(ps, owner, name, from + 1)
    }
}

/// Finds a prepared statement of a session.
pub fn find_prepared(ps: &Vec<Prepared>, owner: u64, name: usize) -> (r: Option<usize>)
    ensures
        match r {
            Some(i) => i < ps.len() && prepared_place(ps@, owner, name, 0) == Some(i as int),
            None => prepared_place(ps@, owner, name, 0) is None,
        },
{
    let mut i: usize = 0;
    while i < ps.len()
        invariant
            i <= ps.len(),
            prepared_place(ps@, owner, name, 0) == prepared_place(ps@, owner, name, i as int),
        decreases ps.len() - i,
    {
        if ps[i].owner == owner && ps[i].name == name {
            return Some(i);
        }
        i += 1;
    }
    None
}

/// The prepared statements of all sessions but one.
pub open spec fn of_others(ps: Seq<Prepared>, owner: u64) -> Seq<Prepared>
    decreases ps.len(),
{
    if ps.len() == 0 {
        Seq::empty()
    } else if ps.last().owner != owner {
        of_others(ps.drop_last(), owner).push(ps.last())
    } else {
        of_others(ps.drop_last(), owner)
    }
}

/// Forgets the prepared statements of a session.
pub fn forget_all(ps: &mut Vec<Prepared>, owner: u64)
    ensures
        final(ps)@ == of_others(old(ps)@, owner),
{
    let ghost all = ps@;
    let mut i: usize = ps.len();
    assert(all.take(i as int) =~= all);
    assert(of_others(all, owner) =~= of_others(all.take(i as int), owner) + ps@.skip(i as int));
    while i > 0
        invariant
            i <= ps.len(),
            i <= all.len(),
            ps@.take(i as int) =~= all.take(i as int),
            of_others(all, owner) == of_others(all.take(i as int), owner) + ps@.skip(i as int),
        decreases i,
    {
        let ghost now = ps@;
        let ghost tail = now.skip(i as int);
        assert(all.take(i as int).drop_last() =~= all.take(i - 1));
        assert(all.take(i as int).last() == now.take(i as int)[i - 1]);
        if ps[i - 1].owner == owner {
            let _: Prepared = ps.remove(i - 1);
            assert(ps@ =~= now.remove(i - 1));
            assert(ps@.skip(i - 1) =~= tail);
        } else {
            assert(now.skip(i - 1) =~= seq![now[i - 1]] + tail);
            assert(of_others(all.take(i as int), owner) + tail =~= of_others(
                all.take(i - 1),
                owner,
            ) + (seq![now[i - 1]] + tail));
        }
        assert(ps@.take(i - 1) =~= now.take(i - 1));
        assert(now.take(i - 1) =~= now.take(i as int).take(i - 1));
        assert(all.take(i as int).take(i - 1) =~= all.take(i - 1));
        i -= 1;
    }
    assert(all.take(0) =~= Seq::<Prepared>::empty());
    assert(ps@.skip(0) =~= ps@);
    assert(Seq::<Prepared>::empty() + ps@ =~= ps@);
}

/// The highest number of a parameter among the first `n` tokens; 0 if there is none.
pub open spec fn highest_param(ts: Seq<Tok>, n: int) -> u64
    decreases n,
{
    if n <= 0 || n > ts.len() {
        0
    } else {
        let before = highest_param(ts, n - 1);
        match ts[n - 1] {
            Tok::Param(k) => if k > before {
                k
            } else {
                before
            },
            _ => before,
        }
    }
}

fn find_highest_param(ts: &Vec<Tok>) -> (r: u64)
    ensures
        r == highest_param(ts@, ts@.len() as int),
{
    let mut r: u64 = 0;
    let mut i: usize = 0;
    while i < ts.len()
        invariant
            i <= ts.len(),
            r == highest_param(ts@, i as int),
        decreases ts.len() - i,
    {
        match ts[i] {
            Tok::Param(k) => {
                if k > r {
                    r = k;
                }
            },
            _ => {},
        }
        i += 1;
    }
    r
}

/// The highest number that a parameter can have.
pub const MOST_PARAMS: u64 = 65535;

/// A text that is one statement: the table with its names and texts, the statement,
/// and the highest number of a parameter in it.
pub open spec fn read_one(t: Seq<Seq<char>>, sql: Seq<char>) -> (
    Seq<Seq<char>>,
    Result<(Stmt, u64), Fault>,
) {
    let lx = lexer::lexed(t, sql);
    (
        lx.table,
        match lx.tokens {
            Err(f) => Err(f),
            Ok(ts) => match parser::parsed(ts) {
                Err(f) => Err(f),
                Ok(Stmts::Cons(stmt, rest)) => if !(*rest is Nil) {
                    Err(Fault::NotOneStatement)
                } else if highest_param(ts, ts.len() as int) > MOST_PARAMS {
                    Err(Fault::TooManyParameters)
                } else {
                    Ok((*stmt, highest_param(ts, ts.len() as int)))
                },
                Ok(Stmts::Nil) => Err(Fault::NotOneStatement),
            },
        },
    )
}

/// Reads a text that is one statement.
pub fn read(t: &mut Symbols, sql: &str) -> (r: Result<(Stmt, u64), Fault>)
    requires
        old(t).wf(),
    ensures
        final(t).wf(),
        (final(t)@, r) == read_one(old(t)@, sql@),
{
    let chars: Vec<char> = text::chars_of(sql);
    match lexer::lex(t, &chars) {
        Err(f) => Err(f),
        Ok(ts) => {
            let params: u64 = find_highest_param(&ts);
            match parser::parse(&ts) {
                Err(f) => Err(f),
                Ok(Stmts::Cons(stmt, rest)) => match *rest {
                    Stmts::Nil => if params > MOST_PARAMS {
                        Err(Fault::TooManyParameters)
                    } else {
                        Ok((*stmt, params))
                    },
                    Stmts::Cons(_, _) => Err(Fault::NotOneStatement),
                },
                Ok(Stmts::Nil) => Err(Fault::NotOneStatement),
            }
        },
    }
}

/// A value of a client as a value of the engine, with the table its text is in.
pub open spec fn taken_value(t: Seq<Seq<char>>, v: ValueModel) -> (Seq<Seq<char>>, Datum) {
    match v {
        ValueModel::Null => (t, Datum::Null),
        ValueModel::Int(n) => (t, Datum::Int(n)),
        ValueModel::BigInt(n) => (t, Datum::Big(n)),
        ValueModel::Boolean(b) => (t, Datum::Bool(b)),
        ValueModel::Text(s) => (symbols::entered(t, s), Datum::Text(symbols::number(t, s))),
    }
}

fn take_value(t: &mut Symbols, v: &Value) -> (r: Datum)
    requires
        old(t).wf(),
    ensures
        final(t).wf(),
        (final(t)@, r) == taken_value(old(t)@, v@),
{
    match v {
        Value::Null => Datum::Null,
        Value::Int(n) => Datum::Int(*n),
        Value::BigInt(n) => Datum::Big(*n),
        Value::Boolean(b) => Datum::Bool(*b),
        Value::Text(s) => Datum::Text(t.enter(text::chars_of(s.as_str()))),
    }
}

/// The values of a client from place `from` on as values of the engine, with the
/// table their texts are in.
pub open spec fn taken(t: Seq<Seq<char>>, vs: Seq<ValueModel>, from: int) -> (
    Seq<Seq<char>>,
    Tuple,
)
    decreases vs.len() - from,
{
    if from < 0 || from >= vs.len() {
        (t, Tuple::Nil)
    } else {
        let (t1, d) = taken_value(t, vs[from]);
        let (t2, rest) = taken(t1, vs, from + 1);
        (t2, Tuple::Cons(d, Box::new(rest)))
    }
}

pub proof fn lemma_taken_len(t: Seq<Seq<char>>, vs: Seq<ValueModel>, from: int)
    requires
        0 <= from <= vs.len(),
    ensures
        datum::tuple_len(taken(t, vs, from).1) == vs.len() - from,
    decreases vs.len() - from,
{
    if from < vs.len() {
        lemma_taken_len(taken_value(t, vs[from]).0, vs, from + 1);
    }
}

/// Takes the values of a client from place `from` on.
pub fn take(t: &mut Symbols, vs: &Vec<Value>, from: usize) -> (r: Tuple)
    requires
        old(t).wf(),
    ensures
        final(t).wf(),
        (final(t)@, r) == taken(old(t)@, value::values_view(vs@), from as int),
    decreases vs.len() - from,
{
    if from >= vs.len() {
        Tuple::Nil
    } else {
        let d: Datum = take_value(t, &vs[from]);
        let rest: Tuple = take(t, vs, from + 1);
        Tuple::Cons(d, Box::new(rest))
    }
}

/// What a query of a session is analyzed against where its parameters are `params`.
pub open spec fn context_with(w: World, params: Params) -> analyze::CxModel {
    change::cx_of(session::seen(w), w.g.symbols, w.s.vars.path, session::acting(w.s), params)
}

/// The columns of a query of a session.
pub open spec fn columns_of(w: World, params: Params, q: Query) -> Result<Fields, Fault> {
    analyze::query_fields(context_with(w, params), Env::Empty, q)
}

fn find_columns(g: &Shared, s: &Session, params: &Params, q: &Query) -> (r: Result<Fields, Fault>)
    ensures
        r == columns_of(World { g: g@, s: s@ }, *params, *q),
{
    let db: &Db = match &s.txn {
        Some(t) => &t.work.db,
        None => &g.committed,
    };
    let cx: Cx = Cx {
        db,
        symbols: &g.symbols,
        path: &s.vars.path,
        user: session::acting_role(s),
        params,
        named: &Named::Nil,
    };
    assert(cx@ == context_with(World { g: g@, s: s@ }, *params));
    analyze::infer_query_fields(&cx, &Env::Empty, q)
}

fn find_returned_columns(
    g: &Shared,
    s: &Session,
    params: &Params,
    stmt: &Stmt,
) -> (r: Result<Fields, Fault>)
    ensures
        r == returning::all_columns(context_with(World { g: g@, s: s@ }, *params), *stmt),
{
    let db: &Db = match &s.txn {
        Some(t) => &t.work.db,
        None => &g.committed,
    };
    let cx: Cx = Cx {
        db,
        symbols: &g.symbols,
        path: &s.vars.path,
        user: session::acting_role(s),
        params,
        named: &Named::Nil,
    };
    assert(cx@ == context_with(World { g: g@, s: s@ }, *params));
    returning::find_all_columns(&cx, stmt)
}

/// The type of parameter `k` of a statement.
pub open spec fn param_type(w: World, stmt: Stmt, k: u64) -> DataType {
    value::reported_type(hints::stmt_hint(context_with(w, Params::Unknown), k, stmt))
}

/// The types of the first `n` parameters of a statement.
pub open spec fn param_types(w: World, stmt: Stmt, n: u64) -> Seq<DataType> {
    Seq::new(n as nat, |i: int| param_type(w, stmt, (i + 1) as u64))
}

/// Finds the types of the first `n` parameters of a statement.
pub fn find_param_types(g: &Shared, s: &Session, stmt: &Stmt, n: u64) -> (r: Vec<DataType>)
    ensures
        r@ == param_types(World { g: g@, s: s@ }, *stmt, n),
{
    let db: &Db = match &s.txn {
        Some(t) => &t.work.db,
        None => &g.committed,
    };
    let params: Params = Params::Unknown;
    let cx: Cx = Cx {
        db,
        symbols: &g.symbols,
        path: &s.vars.path,
        user: session::acting_role(s),
        params: &params,
        named: &Named::Nil,
    };
    assert(cx@ == context_with(World { g: g@, s: s@ }, Params::Unknown));
    let mut out: Vec<DataType> = Vec::new();
    let mut k: u64 = 0;
    while k < n
        invariant
            k <= n,
            cx@ == context_with(World { g: g@, s: s@ }, Params::Unknown),
            out@ =~= param_types(World { g: g@, s: s@ }, *stmt, n).take(k as int),
        decreases n - k,
    {
        let ty: DataType = match hints::suggest_stmt_hint(&cx, k + 1, stmt) {
            Some(d) => d,
            None => DataType::Text,
        };
        out.push(ty);
        k += 1;
    }
    out
}

/// Whether a value can be given for a parameter of a type. Null can be given for
/// any, and a number of the smaller type for one of the larger.
pub open spec fn suits(ty: DataType, d: Datum) -> bool {
    match d {
        Datum::Null => true,
        Datum::Int(_) => ty == DataType::Int || ty == DataType::BigInt,
        Datum::Big(_) => ty == DataType::BigInt,
        Datum::Bool(_) => ty == DataType::Boolean,
        Datum::Text(_) => ty == DataType::Text,
    }
}

/// The first of several values that cannot be given for its parameter; the first
/// value is for the parameter at place `at`.
pub open spec fn unsuited(types: Seq<DataType>, values: Tuple, at: int) -> Option<Fault>
    decreases values,
{
    match values {
        Tuple::Nil => None,
        Tuple::Cons(d, rest) => if 0 <= at < types.len() && !suits(types[at], d) {
            Some(Fault::ParameterType { number: (at + 1) as u64, ty: types[at] })
        } else {
            unsuited(types, *rest, at + 1)
        },
    }
}

fn find_unsuited(types: &Vec<DataType>, values: &Tuple, at: u64) -> (r: Option<Fault>)
    requires
        at + datum::tuple_len(*values) <= u64::MAX,
    ensures
        r == unsuited(types@, *values, at as int),
    decreases values,
{
    match values {
        Tuple::Nil => None,
        Tuple::Cons(d, rest) => {
            if (at as u128) < types.len() as u128 {
                let ty: DataType = types[at as usize];
                let suited: bool = match *d {
                    Datum::Null => true,
                    Datum::Int(_) => ty == DataType::Int || ty == DataType::BigInt,
                    Datum::Big(_) => ty == DataType::BigInt,
                    Datum::Bool(_) => ty == DataType::Boolean,
                    Datum::Text(_) => ty == DataType::Text,
                };
                if !suited {
                    return Some(Fault::ParameterType { number: at + 1, ty });
                }
            }
            find_unsuited(types, rest, at + 1)
        },
    }
}

/// The columns of a statement at the time it is prepared: those of a query, and
/// none of anything else.
pub open spec fn first_columns(w: World, stmt: Stmt) -> Result<Fields, Fault> {
    match stmt {
        Stmt::Query(q) => columns_of(w, Params::Unknown, *q),
        _ => returning::all_columns(context_with(w, Params::Unknown), stmt),
    }
}

/// Finds the columns of a statement at the time it is prepared.
pub fn find_first_columns(g: &Shared, s: &Session, stmt: &Stmt) -> (r: Result<Fields, Fault>)
    ensures
        r == first_columns(World { g: g@, s: s@ }, *stmt),
{
    match stmt {
        Stmt::Query(q) => find_columns(g, s, &Params::Unknown, q),
        _ => find_returned_columns(g, s, &Params::Unknown, stmt),
    }
}

/// The columns of a statement. Those of a statement about a cursor are those of the
/// cursor, which has to be there.
pub open spec fn current_columns(w: World, params: Params, stmt: Stmt) -> Result<Fields, Fault> {
    match stmt {
        Stmt::Query(q) => columns_of(w, params, *q),
        Stmt::Fetch(name, _) => match portal::cursor_place(w.s.portals, name) {
            None => Err(Fault::NoCursor { name }),
            Some(i) => match w.s.portals[i].content {
                ContentModel::Rows(fs, _) => Ok(fs),
                _ => Err(Fault::NoCursor { name }),
            },
        },
        Stmt::Move(name, _) => if portal::cursor_place(w.s.portals, name) is Some {
            Ok(Fields::Nil)
        } else {
            Err(Fault::NoCursor { name })
        },
        Stmt::Close(name) => if portal::cursor_place(w.s.portals, name) is Some {
            Ok(Fields::Nil)
        } else {
            Err(Fault::NoCursor { name })
        },
        Stmt::Declare(_, None) => Err(Fault::CursorWithoutRows),
        _ => returning::all_columns(context_with(w, params), stmt),
    }
}

/// Finds the columns of a statement.
pub fn find_current_columns(g: &Shared, s: &Session, params: &Params, stmt: &Stmt) -> (r: Result<
    Fields,
    Fault,
>)
    ensures
        r == current_columns(World { g: g@, s: s@ }, *params, *stmt),
{
    match stmt {
        Stmt::Query(q) => find_columns(g, s, params, q),
        Stmt::Fetch(name, _) => match portal::find_cursor(&s.portals, *name) {
            None => Err(Fault::NoCursor { name: *name }),
            Some(i) => {
                assert(s@.portals[i as int] == s.portals@[i as int]@);
                match &s.portals[i].content {
                    Content::Rows(fs, _) => Ok(fs.copy()),
                    _ => Err(Fault::NoCursor { name: *name }),
                }
            },
        },
        Stmt::Move(name, _) => if portal::find_cursor(&s.portals, *name).is_some() {
            Ok(Fields::Nil)
        } else {
            Err(Fault::NoCursor { name: *name })
        },
        Stmt::Close(name) => if portal::find_cursor(&s.portals, *name).is_some() {
            Ok(Fields::Nil)
        } else {
            Err(Fault::NoCursor { name: *name })
        },
        Stmt::Declare(_, None) => Err(Fault::CursorWithoutRows),
        _ => find_returned_columns(g, s, params, stmt),
    }
}

pub open spec fn with_params(w: World, params: Params) -> World {
    session::with_session(w, SessionModel { params, ..w.s })
}

/// One statement with given parameters, sent on its own. Outside of a block its
/// transaction ends with it. Messages are not delivered.
pub open spec fn single(w: World, params: Params, stmt: Stmt) -> Step {
    let st = session::step(supply::supplied(with_params(w, params), stmt), stmt);
    let w1 = with_params(st.w, Params::Missing);
    match st.r {
        Err(f) => Step {
            w: if session::in_block(w1.s) {
                w1
            } else {
                session::undone(w1)
            },
            r: Err(f),
        },
        Ok(a) => if session::in_block(w1.s) {
            Step { w: w1, r: Ok(a) }
        } else {
            match session::finished(w1) {
                (w2, Some(f)) => session::stopped(w2, f),
                (w2, None) => Step { w: w2, r: Ok(a) },
            }
        },
    }
}

fn run_single(g: &mut Shared, s: Session, params: Params, stmt: &Stmt) -> (out: (
    Session,
    Result<Answer, Failure>,
))
    requires
        symbols::is_table(old(g)@.symbols),
    ensures
        session::stepped(final(g)@, out, single(World { g: old(g)@, s: s@ }, params, *stmt)),
        symbols::is_table(final(g)@.symbols),
{
    let mut s = s;
    s.params = params;
    proof {
        supply::law_supply_changes_the_table_alone(World { g: g@, s: s@ }, *stmt);
    }
    supply::supply(g, &s, stmt);
    proof {
        session::lemma_step_keeps_symbols(World { g: g@, s: s@ }, *stmt);
    }
    let (s, r): (Session, Result<Answer, Failure>) = session::execute(g, s, stmt);
    let mut s = s;
    s.params = Params::Missing;
    match r {
        Err(f) => if session::is_in_block(&s) {
            (s, Err(f))
        } else {
            (session::undo(g, s), Err(f))
        },
        Ok(a) => {
            if session::is_in_block(&s) {
                return (s, Ok(a));
            }
            let (s, clash): (Session, Option<Fault>) = session::finish(g, s);
            match clash {
                Some(f) => (s, Err(session::fail(f))),
                None => (s, Ok(a)),
            }
        },
    }
}

/// A part of what a portal has: rows with their columns, how many rows were handed
/// out so far and whether there are no more; or an answer without rows.
pub enum Part {
    Rows(Fields, Vec<Tuple>, Tag, u64, bool),
    Other(Answer),
}

pub enum PartModel {
    Rows(Fields, Seq<Tuple>, Tag, u64, bool),
    Other(AnswerModel),
}

impl View for Part {
    type V = PartModel;

    open spec fn view(&self) -> PartModel {
        match *self {
            Part::Rows(fs, rows, tag, n, last) => PartModel::Rows(fs, rows@, tag, n, last),
            Part::Other(a) => PartModel::Other(a@),
        }
    }
}

/// How far a portal goes that is asked for at most `max` rows; 0 stands for all.
pub open spec fn stride(max: u64) -> Direction {
    if max == 0 {
        Direction::Forward(None)
    } else {
        Direction::Forward(Some(max))
    }
}

/// The next part of rows, from position `at`.
pub open spec fn part_of(fs: Fields, rows: Seq<Tuple>, at: u128, max: u64, tag: Tag) -> PartModel {
    let m = portal::motion(rows.len() as int, at as int, stride(max));
    PartModel::Rows(
        fs,
        portal::handed_out(rows, m),
        tag,
        m.hi as u64,
        m.hi == rows.len(),
    )
}

fn take_part(fs: &Fields, rows: &Vec<Tuple>, at: u128, max: u64, tag: Tag) -> (r: (Part, u128))
    ensures
        r.0@ == part_of(*fs, rows@, at, max, tag),
        r.1 == portal::motion(rows@.len() as int, at as int, stride(max)).at,
{
    let d: Direction = if max == 0 {
        Direction::Forward(None)
    } else {
        Direction::Forward(Some(max))
    };
    let (out, to): (Vec<Tuple>, u128) = portal::advance(rows, at, d);
    let n: usize = rows.len();
    let start: usize = if at < n as u128 {
        at as usize
    } else {
        n
    };
    let hi: usize = start + out.len();
    (Part::Rows(fs.copy(), out, tag, hi as u64, hi == n), to)
}

/// The name of the command that the rows of a statement are reported under.
pub open spec fn rows_tag(stmt: Stmt) -> Tag {
    match stmt {
        Stmt::Fetch(_, _) => Tag::Fetch,
        Stmt::Returning(s, _) => match change::row_tag(*s) {
            Some(tag) => tag,
            None => Tag::Select,
        },
        _ => Tag::Select,
    }
}

fn tag_of_rows(stmt: &Stmt) -> (r: Tag)
    ensures
        r == rows_tag(*stmt),
{
    match stmt {
        Stmt::Fetch(_, _) => Tag::Fetch,
        Stmt::Returning(s, _) => match change::tag_of_rows(s) {
            Some(tag) => tag,
            None => Tag::Select,
        },
        _ => Tag::Select,
    }
}

pub open spec fn with_content(
    s: SessionModel,
    i: int,
    content: ContentModel,
    at: u128,
) -> SessionModel {
    SessionModel {
        portals: s.portals.update(i, PortalModel { content, at, ..s.portals[i] }),
        ..s
    }
}

/// What an answer makes of the portal that asked for it, and its first part. A
/// portal that was closed by its own statement is left alone.
pub open spec fn answered(w: World, name: usize, a: AnswerModel, max: u64, tag: Tag) -> (
    World,
    PartModel,
) {
    let place = portal::portal_place(w.s.portals, name, 0);
    match a {
        AnswerModel::Rows(fs, rows) => (
            match place {
                None => w,
                Some(i) => session::with_session(
                    w,
                    with_content(
                        w.s,
                        i,
                        ContentModel::Rows(fs, rows),
                        portal::motion(rows.len() as int, 0, stride(max)).at as u128,
                    ),
                ),
            },
            part_of(fs, rows, 0, max, tag),
        ),
        _ => (
            match place {
                None => w,
                Some(i) => session::with_session(
                    w,
                    with_content(w.s, i, ContentModel::Finished, 0),
                ),
            },
            PartModel::Other(a),
        ),
    }
}

fn set_content(s: Session, i: usize, content: Content, at: u128) -> (out: Session)
    requires
        i < s.portals.len(),
    ensures
        out@ == with_content(s@, i as int, content@, at),
{
    let mut s = s;
    let ghost before = s.portals@;
    let mut p: Portal = s.portals.remove(i);
    assert(p@ == portal::portals_view(before)[i as int]);
    p.content = content;
    p.at = at;
    let ghost p1 = p@;
    s.portals.insert(i, p);
    assert(portal::portals_view(s.portals@) =~= portal::portals_view(before).update(i as int, p1));
    s
}

fn settle(s: Session, name: usize, a: Answer, max: u64, tag: Tag) -> (out: (Session, Part))
    ensures
        forall|g: SharedModel|
            (#[trigger] answered(World { g, s: s@ }, name, a@, max, tag)) == (
                World { g, s: out.0@ },
                out.1@,
            ),
{
    let place: Option<usize> = portal::find_portal(&s.portals, name);
    match a {
        Answer::Rows(fs, rows) => {
            let (part, at): (Part, u128) = take_part(&fs, &rows, 0, max, tag);
            match place {
                None => (s, part),
                Some(i) => (set_content(s, i, Content::Rows(fs, rows), at), part),
            }
        },
        other => match place {
            None => (s, Part::Other(other)),
            Some(i) => (set_content(s, i, Content::Finished, 0), Part::Other(other)),
        },
    }
}

/// What the execution of a portal makes of the world, and the part that it hands
/// out. The statement is executed the first time; after that its rows are handed
/// out. A portal whose statement is gone is no longer known.
pub open spec fn portal_run(w: World, ps: Seq<Prepared>, owner: u64, name: usize, max: u64) -> (
    World,
    Result<PartModel, Failure>,
) {
    let unknown = (w, Err(session::failure(Fault::UnknownPortal { name })));
    match portal::portal_place(w.s.portals, name, 0) {
        None => unknown,
        Some(i) => match w.s.portals[i].statement {
            None => unknown,
            Some(statement) => match prepared_place(ps, owner, statement, 0) {
                None => unknown,
                Some(j) => match w.s.portals[i].content {
                    ContentModel::Finished => (
                        w,
                        Err(session::failure(Fault::PortalFinished { name })),
                    ),
                    ContentModel::Rows(fs, rows) => if session::is_failed(w.s) {
                        (w, Err(session::failure(Fault::Aborted)))
                    } else {
                        (
                            session::with_session(
                                w,
                                session::repositioned(
                                    w.s,
                                    i,
                                    portal::motion(
                                        rows.len() as int,
                                        w.s.portals[i].at as int,
                                        stride(max),
                                    ).at as u128,
                                ),
                            ),
                            Ok(part_of(fs, rows, w.s.portals[i].at, max, rows_tag(ps[j].stmt))),
                        )
                    },
                    ContentModel::Waiting => {
                        let st = single(w, w.s.portals[i].params, ps[j].stmt);
                        match st.r {
                            Err(f) => (st.w, Err(f)),
                            Ok(a) => {
                                let (w1, part) = answered(
                                    st.w,
                                    name,
                                    a,
                                    max,
                                    rows_tag(ps[j].stmt),
                                );
                                (w1, Ok(part))
                            },
                        }
                    },
                },
            },
        },
    }
}

pub open spec fn part_result(r: Result<Part, Failure>) -> Result<PartModel, Failure> {
    match r {
        Ok(p) => Ok(p@),
        Err(f) => Err(f),
    }
}

impl Params {
    pub fn copy(&self) -> (r: Params)
        ensures
            r == *self,
    {
        match self {
            Params::Missing => Params::Missing,
            Params::Unknown => Params::Unknown,
            Params::Given(values) => Params::Given(values.copy()),
        }
    }
}

fn is_failed_block(s: &Session) -> (r: bool)
    ensures
        r == session::is_failed(s@),
{
    match &s.txn {
        Some(t) => t.explicit && t.failed,
        None => false,
    }
}

/// Executes a portal.
pub fn run_portal(g: &mut Shared, s: Session, ps: &Vec<Prepared>, owner: u64, name: usize, max: u64) -> (out:
    (Session, Result<Part, Failure>))
    requires
        symbols::is_table(old(g)@.symbols),
    ensures
        symbols::is_table(final(g)@.symbols),
        (World { g: final(g)@, s: out.0@ }, part_result(out.1)) == portal_run(
            World { g: old(g)@, s: s@ },
            ps@,
            owner,
            name,
            max,
        ),
{
    let i: usize = match portal::find_portal(&s.portals, name) {
        None => {
            return (s, Err(session::fail(Fault::UnknownPortal { name })));
        },
        Some(i) => i,
    };
    assert(s@.portals[i as int] == s.portals@[i as int]@);
    let statement: usize = match s.portals[i].statement {
        None => {
            return (s, Err(session::fail(Fault::UnknownPortal { name })));
        },
        Some(n) => n,
    };
    let j: usize = match find_prepared(ps, owner, statement) {
        None => {
            return (s, Err(session::fail(Fault::UnknownPortal { name })));
        },
        Some(j) => j,
    };
    let tag: Tag = tag_of_rows(&ps[j].stmt);
    let next: Option<(Part, u128)> = match &s.portals[i].content {
        Content::Finished => {
            return (s, Err(session::fail(Fault::PortalFinished { name })));
        },
        Content::Rows(fs, rows) => {
            if is_failed_block(&s) {
                return (s, Err(session::fail(Fault::Aborted)));
            }
            Some(take_part(fs, rows, s.portals[i].at, max, tag))
        },
        Content::Waiting => None,
    };
    match next {
        Some((part, at)) => {
            let mut s = s;
            let ghost before = s.portals@;
            let mut p: Portal = s.portals.remove(i);
            p.at = at;
            let ghost p1 = p@;
            s.portals.insert(i, p);
            assert(portal::portals_view(s.portals@) =~= portal::portals_view(before).update(
                i as int,
                p1,
            ));
            (s, Ok(part))
        },
        None => {
            let params: Params = s.portals[i].params.copy();
            let (s, r): (Session, Result<Answer, Failure>) = run_single(g, s, params, &ps[j].stmt);
            match r {
                Err(f) => (s, Err(f)),
                Ok(a) => {
                    let (s, part): (Session, Part) = settle(s, name, a, max, tag);
                    (s, Ok(part))
                },
            }
        },
    }
}

/// What keeps a statement from being prepared.
pub open spec fn prepare_fault(
    w: World,
    ps: Seq<Prepared>,
    owner: u64,
    name: usize,
) -> Option<Fault> {
    if prepared_place(ps, owner, name, 0) is Some {
        Some(Fault::StatementExists { name })
    } else if w.s.prepared + portal::cursor_count(w.s.portals)
        >= w.g.limits.max_prepared_statements {
        Some(Fault::TooManyStatements)
    } else {
        None
    }
}

pub fn check_prepare(g: &Shared, s: &Session, ps: &Vec<Prepared>, owner: u64, name: usize) -> (r:
    Option<Fault>)
    ensures
        r == prepare_fault(World { g: g@, s: s@ }, ps@, owner, name),
{
    let taken: u128 = s.prepared as u128 + portal::count_cursors(&s.portals) as u128;
    if find_prepared(ps, owner, name).is_some() {
        Some(Fault::StatementExists { name })
    } else if taken >= g.limits.max_prepared_statements as u128 {
        Some(Fault::TooManyStatements)
    } else {
        None
    }
}

/// The portals without the one of a given name.
pub open spec fn without_portal(ps: Seq<PortalModel>, name: usize) -> Seq<PortalModel> {
    match portal::portal_place(ps, name, 0) {
        None => ps,
        Some(i) => ps.remove(i),
    }
}

/// A session in which a portal was bound to a statement with given parameters. A
/// portal of the same name is closed first.
pub open spec fn bound(
    w: World,
    ps: Seq<Prepared>,
    owner: u64,
    name: usize,
    statement: usize,
    values: Tuple,
    count: u64,
) -> (SessionModel, Result<(), Fault>) {
    match prepared_place(ps, owner, statement, 0) {
        None => (w.s, Err(Fault::UnknownStatement { name: statement })),
        Some(j) => if ps[j].params != count {
            (w.s, Err(Fault::ParameterCount { needed: ps[j].params, given: count }))
        } else if let Some(f) = unsuited(param_types(w, ps[j].stmt, ps[j].params), values, 0) {
            (w.s, Err(f))
        } else {
            let s1 = SessionModel { portals: without_portal(w.s.portals, name), ..w.s };
            if s1.portals.len() >= w.g.limits.max_portals {
                (s1, Err(Fault::TooManyPortals))
            } else if s1.next_portal == u64::MAX {
                (s1, Err(Fault::IdentifiersExhausted))
            } else {
                (
                    session::with_portal(
                        s1,
                        name,
                        Some(statement),
                        Params::Given(values),
                        ContentModel::Waiting,
                    ),
                    Ok(()),
                )
            }
        },
    }
}

/// Binds a portal to a statement.
pub fn bind_portal(
    g: &Shared,
    s: Session,
    ps: &Vec<Prepared>,
    owner: u64,
    name: usize,
    statement: usize,
    values: Tuple,
    count: u64,
) -> (out: (Session, Result<(), Fault>))
    requires
        datum::tuple_len(values) <= u64::MAX,
    ensures
        (out.0@, out.1) == bound(
            World { g: g@, s: s@ },
            ps@,
            owner,
            name,
            statement,
            values,
            count,
        ),
{
    let j: usize = match find_prepared(ps, owner, statement) {
        None => {
            return (s, Err(Fault::UnknownStatement { name: statement }));
        },
        Some(j) => j,
    };
    if ps[j].params != count {
        return (s, Err(Fault::ParameterCount { needed: ps[j].params, given: count }));
    }
    let types: Vec<DataType> = find_param_types(g, &s, &ps[j].stmt, ps[j].params);
    match find_unsuited(&types, &values, 0) {
        Some(f) => {
            return (s, Err(f));
        },
        None => {},
    }
    let mut s = s;
    let ghost before = s.portals@;
    match portal::find_portal(&s.portals, name) {
        None => {},
        Some(i) => {
            let _: Portal = s.portals.remove(i);
            assert(portal::portals_view(s.portals@) =~= portal::portals_view(before).remove(
                i as int,
            ));
        },
    }
    if s.portals.len() as u128 >= g.limits.max_portals as u128 {
        return (s, Err(Fault::TooManyPortals));
    }
    if s.next_portal == u64::MAX {
        return (s, Err(Fault::IdentifiersExhausted));
    }
    session::add_portal(&mut s, name, Some(statement), Params::Given(values), Content::Waiting);
    (s, Ok(()))
}

/// What a client gets of a portal: columns and rows, the name of the command with
/// the number of rows behind the last of them, and whether there is no more.
#[derive(Clone, PartialEq, Eq, Debug)]
pub struct PortalBatch {
    pub columns: Vec<ResultColumn>,
    pub rows: Vec<Row>,
    pub tag: String,
    pub rows_affected: u64,
    pub exhausted: bool,
}

pub struct BatchModel {
    pub columns: Seq<ColumnModel>,
    pub rows: Seq<Seq<ValueModel>>,
    pub tag: Seq<char>,
    pub rows_affected: u64,
    pub exhausted: bool,
}

impl View for PortalBatch {
    type V = BatchModel;

    open spec fn view(&self) -> BatchModel {
        BatchModel {
            columns: value::columns_view(self.columns@),
            rows: value::rows_view(self.rows@),
            tag: self.tag@,
            rows_affected: self.rows_affected,
            exhausted: self.exhausted,
        }
    }
}

/// A part of what a portal has as a client sees it.
pub open spec fn batch_of(t: Seq<Seq<char>>, part: PartModel) -> BatchModel {
    match part {
        PartModel::Rows(fs, rows, tag, n, last) => BatchModel {
            columns: value::described(t, fs),
            rows: value::rendered_rows(t, rows),
            tag: if last {
                value::counted_tag(tag, n as nat)
            } else {
                fault::tag_text(tag)
            },
            rows_affected: 0,
            exhausted: last,
        },
        PartModel::Other(a) => match value::rendered(t, ReplyModel::Answer(a)) {
            ResultModel::Command { tag, rows_affected } => BatchModel {
                columns: Seq::empty(),
                rows: Seq::empty(),
                tag,
                rows_affected,
                exhausted: true,
            },
            ResultModel::Query { columns, rows } => BatchModel {
                columns,
                rows,
                tag: fault::tag_text(Tag::Show),
                rows_affected: 0,
                exhausted: true,
            },
            ResultModel::Notice { message } => BatchModel {
                columns: Seq::empty(),
                rows: Seq::empty(),
                tag: message,
                rows_affected: 0,
                exhausted: true,
            },
        },
    }
}

fn plain_batch(tag: String, rows_affected: u64) -> (r: PortalBatch)
    ensures
        r@ == (BatchModel {
            columns: Seq::empty(),
            rows: Seq::empty(),
            tag: tag@,
            rows_affected,
            exhausted: true,
        }),
{
    let columns: Vec<ResultColumn> = Vec::new();
    let rows: Vec<Row> = Vec::new();
    assert(value::columns_view(columns@) =~= Seq::<ColumnModel>::empty());
    assert(value::rows_view(rows@) =~= Seq::<Seq<ValueModel>>::empty());
    PortalBatch { columns, rows, tag, rows_affected, exhausted: true }
}

/// A part of what a portal has as a client sees it.
pub fn render_part(t: &Symbols, part: Part) -> (r: PortalBatch)
    ensures
        r@ == batch_of(t@, part@),
{
    match part {
        Part::Rows(fs, rows, tag, n, last) => PortalBatch {
            columns: value::describe(t, &fs),
            rows: value::render_rows(t, &rows),
            tag: if last {
                value::tag_with_count(tag, n)
            } else {
                text::owned(fault::tag_name(tag))
            },
            rows_affected: 0,
            exhausted: last,
        },
        Part::Other(a) => match value::render(t, Reply::Answer(a)) {
            StatementResult::Command { tag, rows_affected } => plain_batch(tag, rows_affected),
            StatementResult::Query { columns, rows } => PortalBatch {
                columns,
                rows,
                tag: text::owned(fault::tag_name(Tag::Show)),
                rows_affected: 0,
                exhausted: true,
            },
            StatementResult::Notice { message } => plain_batch(message, 0),
        },
    }
}

/// What a client is told of a statement: the types of its parameters and its
/// columns.
#[derive(Clone, PartialEq, Eq, Debug)]
pub struct StatementDescription {
    pub param_types: Vec<DataType>,
    pub result_columns: Vec<ResultColumn>,
}

pub struct DescriptionModel {
    pub param_types: Seq<DataType>,
    pub result_columns: Seq<ColumnModel>,
}

impl View for StatementDescription {
    type V = DescriptionModel;

    open spec fn view(&self) -> DescriptionModel {
        DescriptionModel {
            param_types: self.param_types@,
            result_columns: value::columns_view(self.result_columns@),
        }
    }
}

/// The description of a statement with given columns and `n` parameters.
pub open spec fn description(w: World, stmt: Stmt, n: u64, fs: Fields) -> DescriptionModel {
    DescriptionModel {
        param_types: param_types(w, stmt, n),
        result_columns: value::described(w.g.symbols, fs),
    }
}

/// Describes a statement with given columns and `n` parameters.
pub fn describe_as(g: &Shared, s: &Session, stmt: &Stmt, n: u64, fs: &Fields) -> (r:
    StatementDescription)
    ensures
        r@ == description(World { g: g@, s: s@ }, *stmt, n, *fs),
{
    StatementDescription {
        param_types: find_param_types(g, s, stmt, n),
        result_columns: value::describe(&g.symbols, fs),
    }
}

/// What the preparation of a statement makes of the world and of the prepared
/// statements, and the description of the statement. Nothing is prepared if there
/// is a fault.
#[verifier::opaque]
pub open spec fn preparation(
    w: World,
    ps: Seq<Prepared>,
    owner: u64,
    name: Seq<char>,
    sql: Seq<char>,
) -> (World, Seq<Prepared>, Result<DescriptionModel, Fault>) {
    let n = symbols::number(w.g.symbols, name);
    let (t, read) = read_one(symbols::entered(w.g.symbols, name), sql);
    let w1 = World { g: SharedModel { symbols: t, ..w.g }, s: w.s };
    match read {
        Err(f) => (w1, ps, Err(f)),
        Ok((stmt, params)) => match prepare_fault(w1, ps, owner, n) {
            Some(f) => (w1, ps, Err(f)),
            None => match first_columns(w1, stmt) {
                Err(f) => (w1, ps, Err(f)),
                Ok(fs) => (
                    session::with_session(
                        w1,
                        SessionModel { prepared: (w.s.prepared + 1) as u64, ..w.s },
                    ),
                    ps.push(Prepared { owner, name: n, stmt, params }),
                    Ok(description(w1, stmt, params, fs)),
                ),
            },
        },
    }
}

pub open spec fn description_result(r: Result<StatementDescription, Fault>) -> Result<
    DescriptionModel,
    Fault,
> {
    match r {
        Ok(d) => Ok(d@),
        Err(f) => Err(f),
    }
}

/// Reads a statement and keeps it.
pub fn prepare(
    g: &mut Shared,
    s: Session,
    ps: &mut Vec<Prepared>,
    owner: u64,
    name: &str,
    sql: &str,
) -> (out: (Session, Result<StatementDescription, Fault>))
    requires
        symbols::is_table(old(g)@.symbols),
    ensures
        symbols::is_table(final(g)@.symbols),
        (World { g: final(g)@, s: out.0@ }, final(ps)@, description_result(out.1)) == preparation(
            World { g: old(g)@, s: s@ },
            old(ps)@,
            owner,
            name@,
            sql@,
        ),
{
    proof {
        reveal(preparation);
    }
    let n: usize = g.symbols.enter(text::chars_of(name));
    let (stmt, params): (Stmt, u64) = match read(&mut g.symbols, sql) {
        Err(f) => {
            return (s, Err(f));
        },
        Ok(x) => x,
    };
    match check_prepare(g, &s, ps, owner, n) {
        Some(f) => {
            return (s, Err(f));
        },
        None => {},
    }
    let fs: Fields = match find_first_columns(g, &s, &stmt) {
        Err(f) => {
            return (s, Err(f));
        },
        Ok(fs) => fs,
    };
    let d: StatementDescription = describe_as(g, &s, &stmt, params, &fs);
    ps.push(Prepared { owner, name: n, stmt, params });
    let mut s = s;
    s.prepared = s.prepared + 1;
    (s, Ok(d))
}

/// The rows of a statement that a portal hands out in two parts are those that it
/// hands out in one: none is left out and none comes twice.
pub proof fn law_parts_add_up(fs: Fields, rows: Seq<Tuple>, tag: Tag, a: u64, b: u64)
    requires
        a > 0,
        b > 0,
        a + b <= u64::MAX,
        rows.len() < u64::MAX,
    ensures
        ({
            let at = portal::motion(rows.len() as int, 0, stride(a)).at as u128;
            match (
                part_of(fs, rows, 0, a, tag),
                part_of(fs, rows, at, b, tag),
                part_of(fs, rows, 0, (a + b) as u64, tag),
            ) {
                (
                    PartModel::Rows(_, first, _, _, _),
                    PartModel::Rows(_, second, _, m, last),
                    PartModel::Rows(_, all, _, n, over),
                ) => first + second == all && m == n && last == over,
                _ => false,
            }
        }),
{
    portal::law_fetch_in_parts(rows, 0, a, b);
}

/// A portal that is asked for all rows at once hands out all of them, and says so.
pub proof fn law_all_at_once(fs: Fields, rows: Seq<Tuple>, tag: Tag)
    ensures
        part_of(fs, rows, 0, 0, tag) == PartModel::Rows(fs, rows, tag, rows.len() as u64, true),
{
    portal::law_fetch_all(rows);
}

} // verus!
