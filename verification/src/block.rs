//! Blocks of code: variables, assignments, branches and messages.

use vstd::prelude::*;
use crate::analyze;
use crate::analyze::Cx;
use crate::analyze::CxModel;
use crate::analyze::Ty;
use crate::ast::Action;
use crate::ast::Actions;
use crate::ast::Block;
use crate::ast::Branches;
use crate::ast::Expr;
use crate::ast::Idents;
use crate::ast::TextFn;
use crate::ast::Variables;
use crate::datum;
use crate::datum::DataType;
use crate::datum::Datum;
use crate::datum::Tuple;
use crate::eval;
use crate::fault::Fault;
use crate::fields;
use crate::fields::Env;
use crate::fields::Field;
use crate::fields::Fields;
use crate::fields::Found;
use crate::strings;

verus! {

/// The variables of a block, as columns, and their values.
pub struct Scope {
    pub fields: Fields,
    pub row: Tuple,
}

/// The values of variables after actions, and the texts of the messages that were
/// given.
pub struct Ran {
    pub row: Tuple,
    pub said: Idents,
}

/// The value of an expression, as a variable of a type holds it.
pub open spec fn value_as(
    cx: CxModel,
    fs: Fields,
    row: Tuple,
    ty: DataType,
    e: Expr,
) -> Result<Datum, Fault>
{
    match analyze::expr_type(cx, Env::Frame(&fs, &row, &Env::Empty), false, e) {
        Err(f) => Err(f),
        Ok(_t) => {
            match eval::expr_value(cx, Env::Frame(&fs, &row, &Env::Empty), None, e) {
                Err(f) => Err(f),
                Ok(d) => {
                    if ty == DataType::Text {
                        strings::call_value(cx.symbols, TextFn::Cast, d, Datum::Null, Datum::Null)
                    } else {
                        eval::cast_value(cx.symbols, d, ty)
                    }
                },
            }
        },
    }
}

/// A variable as a column.
pub open spec fn variable(n: usize, ty: DataType) -> Field
{
    Field { qualifier: None, name: n, ty: Some(ty), nullable: true, hidden: false }
}

/// The variables of a block behind those that are there. Each may refer to those
/// before it.
pub open spec fn declared(
    cx: CxModel,
    vs: Variables,
    fs: Fields,
    row: Tuple,
) -> Result<Scope, Fault>
    decreases vs,
{
    match vs {
        Variables::Nil => Ok(Scope { fields: fs, row: row }),
        Variables::Cons(n, ty, e, rest) => {
            match value_as(cx, fs, row, ty, *e) {
                Err(f) => Err(f),
                Ok(d) => {
                    let more: Fields = fields::fields_append(
                        fs,
                        Fields::Cons(variable(n, ty), Box::new(Fields::Nil)),
                    );
                    let cells: Tuple = datum::tuple_append(
                        row,
                        Tuple::Cons(d, Box::new(Tuple::Nil)),
                    );
                    declared(cx, *rest, more, cells)
                },
            }
        },
    }
}

/// A row with another value at place `i`.
pub open spec fn with_cell(row: Tuple, i: usize, d: Datum) -> Tuple
    decreases row,
{
    match row {
        Tuple::Nil => Tuple::Nil,
        Tuple::Cons(x, rest) => if i == 0 {
            Tuple::Cons(d, Box::new(*rest))
        } else {
            Tuple::Cons(x, Box::new(with_cell(*rest, (i - 1) as usize, d)))
        },
    }
}

/// The values of variables after an assignment.
pub open spec fn set(cx: CxModel, fs: Fields, row: Tuple, n: usize, e: Expr) -> Result<Tuple, Fault>
{
    match fields::find(fs, None, n) {
        Found::One(i) => match fields::field_at(fs, i as nat) {
            Some(Field { ty: Some(ty), .. }) => {
                match value_as(cx, fs, row, ty, e) {
                    Err(f) => Err(f),
                    Ok(d) => {
                        Ok(with_cell(row, i, d))
                    },
                }
            },
            _ => Err(Fault::UnknownVariable { name: n }),
        },
        _ => Err(Fault::UnknownVariable { name: n }),
    }
}

/// What an action does.
pub open spec fn act(cx: CxModel, fs: Fields, row: Tuple, a: Action) -> Result<Ran, Fault>
    decreases a,
{
    match a {
        Action::Assign(n, e) => {
            match set(cx, fs, row, n, *e) {
                Err(f) => Err(f),
                Ok(next) => {
                    Ok(Ran { row: next, said: Idents::Nil })
                },
            }
        },
        Action::Raise(e) => {
            match value_as(cx, fs, row, DataType::Text, *e) {
                Err(f) => Err(f),
                Ok(d) => {
                    match d {
                        Datum::Text(s) => Ok(
                            Ran { row: row, said: Idents::Cons(s, Box::new(Idents::Nil)) },
                        ),
                        _ => Err(Fault::OperatorMissing),
                    }
                },
            }
        },
        Action::If(bs) => branch(cx, fs, row, *bs),
    }
}

/// What actions do, one after the other.
pub open spec fn acts(cx: CxModel, fs: Fields, row: Tuple, list: Actions) -> Result<Ran, Fault>
    decreases list,
{
    match list {
        Actions::Nil => Ok(Ran { row: row, said: Idents::Nil }),
        Actions::Cons(a, rest) => {
            match act(cx, fs, row, a) {
                Err(f) => Err(f),
                Ok(first) => {
                    match acts(cx, fs, first.row, *rest) {
                        Err(f) => Err(f),
                        Ok(more) => {
                            Ok(Ran { row: more.row, said: joined(first.said, more.said) })
                        },
                    }
                },
            }
        },
    }
}

/// Two lists, one behind the other.
pub open spec fn joined(a: Idents, b: Idents) -> Idents
    decreases a,
{
    match a {
        Idents::Nil => b,
        Idents::Cons(x, rest) => Idents::Cons(x, Box::new(joined(*rest, b))),
    }
}

/// What the first branch does whose condition is true.
pub open spec fn branch(cx: CxModel, fs: Fields, row: Tuple, bs: Branches) -> Result<Ran, Fault>
    decreases bs,
{
    match bs {
        Branches::Else(list) => acts(cx, fs, row, *list),
        Branches::When(c, list, rest) => {
            match analyze::condition_type(cx, Env::Frame(&fs, &row, &Env::Empty), false, *c) {
                Err(f) => Err(f),
                Ok(_t) => {
                    match eval::expr_value(cx, Env::Frame(&fs, &row, &Env::Empty), None, *c) {
                        Err(f) => Err(f),
                        Ok(d) => {
                            if d == Datum::Bool(true) {
                                acts(cx, fs, row, *list)
                            } else {
                                branch(cx, fs, row, *rest)
                            }
                        },
                    }
                },
            }
        },
    }
}

/// What a block does.
pub open spec fn block(cx: CxModel, b: Block) -> Result<Ran, Fault>
{
    match declared(cx, b.vars, Fields::Nil, Tuple::Nil) {
        Err(f) => Err(f),
        Ok(s) => {
            acts(cx, s.fields, s.row, b.body)
        },
    }
}

pub fn run_value_as(
    cx: &Cx,
    fs: &Fields,
    row: &Tuple,
    ty: DataType,
    e: &Expr,
) -> (out: Result<Datum, Fault>)
    ensures
        out == value_as(cx@, *fs, *row, ty, *e),
{
    let _t: Ty = analyze::infer_expr_type(cx, &Env::Frame(fs, row, &Env::Empty), false, e)?;
    let d: Datum = eval::eval_expr_value(cx, &Env::Frame(fs, row, &Env::Empty), None, e)?;
    if ty == DataType::Text {
        strings::call(cx.symbols, TextFn::Cast, d, Datum::Null, Datum::Null)
    } else {
        eval::eval_cast_value(cx.symbols, d, ty)
    }
}

pub fn run_variable(n: usize, ty: DataType) -> (out: Field)
    ensures
        out == variable(n, ty),
{
    Field { qualifier: None, name: n, ty: Some(ty), nullable: true, hidden: false }
}

pub fn run_declared(
    cx: &Cx,
    vs: &Variables,
    fs: &Fields,
    row: &Tuple,
) -> (out: Result<Scope, Fault>)
    ensures
        out == declared(cx@, *vs, *fs, *row),
    decreases vs,
{
    match vs {
        Variables::Nil => Ok(Scope { fields: fs.copy(), row: row.copy() }),
        Variables::Cons(n, ty, e, rest) => {
            let d: Datum = run_value_as(cx, fs, row, *ty, e)?;
            let more: Fields = fs.append(
                &Fields::Cons(run_variable(*n, *ty), Box::new(Fields::Nil)),
            );
            let cells: Tuple = row.append(&Tuple::Cons(d, Box::new(Tuple::Nil)));
            run_declared(cx, rest, &more, &cells)
        },
    }
}

pub fn run_with_cell(row: &Tuple, i: usize, d: Datum) -> (out: Tuple)
    ensures
        out == with_cell(*row, i, d),
    decreases row,
{
    match row {
        Tuple::Nil => Tuple::Nil,
        Tuple::Cons(x, rest) => if i == 0 {
            Tuple::Cons(d, Box::new(rest.copy()))
        } else {
            Tuple::Cons(*x, Box::new(run_with_cell(rest, i - 1, d)))
        },
    }
}

pub fn run_set(cx: &Cx, fs: &Fields, row: &Tuple, n: usize, e: &Expr) -> (out: Result<Tuple, Fault>)
    ensures
        out == set(cx@, *fs, *row, n, *e),
{
    match fs.locate(None, n) {
        Found::One(i) => match fs.at(i) {
            Some(Field { ty: Some(ty), .. }) => {
                let d: Datum = run_value_as(cx, fs, row, ty, e)?;
                Ok(run_with_cell(row, i, d))
            },
            _ => Err(Fault::UnknownVariable { name: n }),
        },
        _ => Err(Fault::UnknownVariable { name: n }),
    }
}

pub fn run_act(cx: &Cx, fs: &Fields, row: &Tuple, a: &Action) -> (out: Result<Ran, Fault>)
    ensures
        out == act(cx@, *fs, *row, *a),
    decreases a,
{
    match a {
        Action::Assign(n, e) => {
            let next: Tuple = run_set(cx, fs, row, *n, e)?;
            Ok(Ran { row: next, said: Idents::Nil })
        },
        Action::Raise(e) => {
            let d: Datum = run_value_as(cx, fs, row, DataType::Text, e)?;
            match d {
                Datum::Text(s) => Ok(
                    Ran { row: row.copy(), said: Idents::Cons(s, Box::new(Idents::Nil)) },
                ),
                _ => Err(Fault::OperatorMissing),
            }
        },
        Action::If(bs) => run_branch(cx, fs, row, bs),
    }
}

pub fn run_acts(cx: &Cx, fs: &Fields, row: &Tuple, list: &Actions) -> (out: Result<Ran, Fault>)
    ensures
        out == acts(cx@, *fs, *row, *list),
    decreases list,
{
    match list {
        Actions::Nil => Ok(Ran { row: row.copy(), said: Idents::Nil }),
        Actions::Cons(a, rest) => {
            let first: Ran = run_act(cx, fs, row, a)?;
            let more: Ran = run_acts(cx, fs, &first.row, rest)?;
            Ok(Ran { row: more.row, said: run_joined(&first.said, &more.said) })
        },
    }
}

pub fn run_joined(a: &Idents, b: &Idents) -> (out: Idents)
    ensures
        out == joined(*a, *b),
    decreases a,
{
    match a {
        Idents::Nil => b.copy(),
        Idents::Cons(x, rest) => Idents::Cons(*x, Box::new(run_joined(rest, b))),
    }
}

pub fn run_branch(cx: &Cx, fs: &Fields, row: &Tuple, bs: &Branches) -> (out: Result<Ran, Fault>)
    ensures
        out == branch(cx@, *fs, *row, *bs),
    decreases bs,
{
    match bs {
        Branches::Else(list) => run_acts(cx, fs, row, list),
        Branches::When(c, list, rest) => {
            let _t: Ty = analyze::infer_condition_type(
                cx,
                &Env::Frame(fs, row, &Env::Empty),
                false,
                c,
            )?;
            let d: Datum = eval::eval_expr_value(cx, &Env::Frame(fs, row, &Env::Empty), None, c)?;
            if d == Datum::Bool(true) {
                run_acts(cx, fs, row, list)
            } else {
                run_branch(cx, fs, row, rest)
            }
        },
    }
}

pub fn run_block(cx: &Cx, b: &Block) -> (out: Result<Ran, Fault>)
    ensures
        out == block(cx@, *b),
{
    let s: Scope = run_declared(cx, &b.vars, &Fields::Nil, &Tuple::Nil)?;
    run_acts(cx, &s.fields, &s.row, &b.body)
}

} // verus!
