//! What statements that change data do to the rows of a table.

use vstd::prelude::*;
use crate::analyze;
use crate::analyze::Cx;
use crate::analyze::CxModel;
use crate::analyze::Ty;
use crate::ast::Assigns;
use crate::ast::Column;
use crate::ast::Columns;
use crate::ast::Expr;
use crate::ast::ExprRows;
use crate::ast::Exprs;
use crate::ast::Feed;
use crate::ast::Filler;
use crate::ast::Idents;
use crate::ast::Item;
use crate::ast::Items;
use crate::ast::Name;
use crate::catalog;
use crate::catalog::Draws;
use crate::catalog::Sequence;
use crate::catalog::Table;
use crate::catalog::TableModel;
use crate::datum;
use crate::datum::Datum;
use crate::datum::Tuple;
use crate::eval;
use crate::fault::Fault;
use crate::fields;
use crate::fields::Env;
use crate::fields::Fields;
use crate::relation;
use crate::symbols;
use crate::symbols::Symbols;
use crate::text;

verus! {

/// A value, and what is left of sequences when it was found.
pub struct Given {
    pub value: Datum,
    pub left: Draws,
}

/// A row, and what is left of sequences when it was made.
pub struct Cells {
    pub row: Tuple,
    pub left: Draws,
}

/// Rows, and what is left of sequences when they were made.
pub struct Fed {
    pub rows: Seq<Tuple>,
    pub left: Draws,
}

/// The sequence with a name.
pub open spec fn sequence_named(cx: CxModel, n: Name) -> Option<Sequence> {
    match catalog::sequence_resolved(cx.db.sequences, cx.path, n) {
        None => None,
        Some(i) => Some(cx.db.sequences[i as int]),
    }
}

/// The values that the rows of an insertion give to the columns `ts`, behind
/// `acc`.
pub open spec fn value_cells(
    cx: CxModel,
    ts: Columns,
    partial: bool,
    rows: ExprRows,
    acc: Fed,
) -> Result<Fed, Fault>
    decreases rows,
{
    match rows {
        ExprRows::Nil => Ok(acc),
        ExprRows::Cons(row, rest) => match row_cells(cx, ts, *row, partial, acc.left) {
            Err(f) => Err(f),
            Ok(t) => value_cells(
                cx,
                ts,
                partial,
                *rest,
                Fed { rows: acc.rows.push(t.row), left: t.left },
            ),
        },
    }
}

/// No rows, with all that sequences have.
pub open spec fn no_rows(cx: CxModel) -> Fed {
    Fed { rows: Seq::empty(), left: cx.db.draws }
}

/// The values that an insertion gives to the columns `ts`, one list for each row.
pub open spec fn feed_cells(cx: CxModel, ts: Columns, partial: bool, feed: Feed) -> Result<
    Fed,
    Fault,
> {
    match feed {
        Feed::Values(rows) => value_cells(cx, ts, partial, *rows, no_rows(cx)),
        Feed::Query(q) => match analyze::query_fields(cx, Env::Empty, *q) {
            Err(f) => Err(f),
            Ok(fs) => if width_ok(fs, ts, partial) {
                match eval::query_rows(cx, Env::Empty, *q) {
                    Err(f) => Err(f),
                    Ok(rows) => Ok(Fed { rows, left: cx.db.draws }),
                }
            } else {
                Err(Fault::InsertWidth)
            },
        },
        Feed::Fillers => Ok(Fed { rows: seq![Tuple::Nil], left: cx.db.draws }),
    }
}

/// The rows that go into a table for the given values from place `i` on, behind
/// `acc`.
pub open spec fn complete_rows(
    cx: CxModel,
    cs: Columns,
    ts: Columns,
    cells: Seq<Tuple>,
    i: int,
    acc: Fed,
) -> Result<Fed, Fault>
    decreases cells.len() - i,
{
    if i < 0 || i >= cells.len() {
        Ok(acc)
    } else {
        match complete_row(cx, cs, ts, cells[i], acc.left) {
            Err(f) => Err(f),
            Ok(c) => complete_rows(
                cx,
                cs,
                ts,
                cells,
                i + 1,
                Fed { rows: acc.rows.push(c.row), left: c.left },
            ),
        }
    }
}

/// The rows that an insertion adds.
pub open spec fn new_rows(cx: CxModel, cs: Columns, names: Idents, feed: Feed) -> Result<
    Fed,
    Fault,
> {
    match target_columns(cs, names) {
        Err(f) => Err(f),
        Ok(ts) => match feed_cells(cx, ts, names is Nil, feed) {
            Err(f) => Err(f),
            Ok(cells) => complete_rows(
                cx,
                cs,
                ts,
                cells.rows,
                0,
                Fed { rows: Seq::empty(), left: cells.left },
            ),
        },
    }
}

/// Whether one of some rows with the columns `cs` has the value `d` in a column.
pub open spec fn has_cell(cs: Columns, rows: Seq<Tuple>, name: usize, d: Datum) -> bool {
    exists|j: int| 0 <= j < rows.len() && cell_named(cs, #[trigger] rows[j], name) == d
}

/// The first of the columns `some` that is unique and in which `x` has a value that
/// one of `rows` has too; `cs` are all columns. Null is no value here.
pub open spec fn clash(cs: Columns, some: Columns, rows: Seq<Tuple>, x: Tuple) -> Option<usize>
    decreases some,
{
    match some {
        Columns::Nil => None,
        Columns::Cons(c, rest) => {
            let d = cell_named(cs, x, c.name);
            if c.unique && d != Datum::Null && has_cell(cs, rows, c.name, d) {
                Some(c.name)
            } else {
                clash(cs, *rest, rows, x)
            }
        },
    }
}

/// The rows of a table after those of `more` from place `i` on were added one by
/// one. None may agree with one before it in a unique column.
pub open spec fn place_rows(cs: Columns, rows: Seq<Tuple>, more: Seq<Tuple>, i: int) -> Result<
    Seq<Tuple>,
    Fault,
>
    decreases more.len() - i,
{
    if i < 0 || i >= more.len() {
        Ok(rows)
    } else {
        match clash(cs, cs, rows, more[i]) {
            Some(name) => Err(Fault::UniqueViolation { name }),
            None => place_rows(cs, rows.push(more[i]), more, i + 1),
        }
    }
}

/// The rows of a table after an insertion.
pub open spec fn inserted(cx: CxModel, t: TableModel, names: Idents, feed: Feed) -> Result<
    Fed,
    Fault,
> {
    match new_rows(cx, t.columns, names, feed) {
        Err(f) => Err(f),
        Ok(more) => match place_rows(t.columns, t.rows, more.rows, 0) {
            Err(f) => Err(f),
            Ok(rows) => Ok(Fed { rows, left: more.left }),
        },
    }
}

/// Rows, how many of them were changed, and what is left of sequences.
pub struct Changed {
    pub rows: Seq<Tuple>,
    pub count: u64,
    pub left: Draws,
}

/// The rows of a table from place `i` on after an update, behind those of `acc`.
pub open spec fn updated_from(
    cx: CxModel,
    fs: Fields,
    cs: Columns,
    assigns: Assigns,
    filter: Expr,
    rows: Seq<Tuple>,
    i: int,
    acc: Changed,
) -> Result<Changed, Fault>
    decreases rows.len() - i,
{
    if i < 0 || i >= rows.len() {
        Ok(acc)
    } else {
        match eval::expr_value(cx, Env::Frame(&fs, &rows[i], &Env::Empty), None, filter) {
            Err(f) => Err(f),
            Ok(d) => if datum::holds(d) {
                match assigned(
                    cx,
                    Env::Frame(&fs, &rows[i], &Env::Empty),
                    cs,
                    assigns,
                    rows[i],
                    acc.left,
                ) {
                    Err(f) => Err(f),
                    Ok(c) => updated_from(
                        cx,
                        fs,
                        cs,
                        assigns,
                        filter,
                        rows,
                        i + 1,
                        Changed {
                            rows: acc.rows.push(c.row),
                            count: next_count(acc.count),
                            left: c.left,
                        },
                    ),
                }
            } else {
                updated_from(
                    cx,
                    fs,
                    cs,
                    assigns,
                    filter,
                    rows,
                    i + 1,
                    Changed { rows: acc.rows.push(rows[i]), count: acc.count, left: acc.left },
                )
            },
        }
    }
}

/// One more; the greatest count stays.
pub open spec fn next_count(n: u64) -> u64 {
    if n < u64::MAX {
        (n + 1) as u64
    } else {
        n
    }
}

/// The rows of a table after an update: all conditions and new values are those
/// of the rows before it.
pub open spec fn updated(cx: CxModel, t: TableModel, assigns: Assigns, filter: Expr) -> Result<
    Changed,
    Fault,
> {
    let fs = fields::table_fields(t.columns, t.name);
    match analyze::condition_type(
        cx,
        Env::Frame(&fs, &Tuple::Nil, &Env::Empty),
        false,
        filter,
    ) {
        Err(f) => Err(f),
        Ok(_) => match assigns_ok(
            cx,
            Env::Frame(&fs, &Tuple::Nil, &Env::Empty),
            t.columns,
            assigns,
        ) {
            Err(f) => Err(f),
            Ok(_) => match updated_from(
                cx,
                fs,
                t.columns,
                assigns,
                filter,
                t.rows,
                0,
                Changed { rows: Seq::empty(), count: 0, left: cx.db.draws },
            ) {
                Err(f) => Err(f),
                Ok(c) => match place_rows(t.columns, Seq::empty(), c.rows, 0) {
                    Err(f) => Err(f),
                    Ok(rows) => Ok(Changed { rows, count: c.count, left: c.left }),
                },
            },
        },
    }
}

/// The rows of a table from place `i` on that a deletion leaves, behind `acc`.
pub open spec fn left_from(
    cx: CxModel,
    fs: Fields,
    filter: Expr,
    rows: Seq<Tuple>,
    i: int,
    acc: Changed,
) -> Result<Changed, Fault>
    decreases rows.len() - i,
{
    if i < 0 || i >= rows.len() {
        Ok(acc)
    } else {
        match eval::expr_value(cx, Env::Frame(&fs, &rows[i], &Env::Empty), None, filter) {
            Err(f) => Err(f),
            Ok(d) => left_from(
                cx,
                fs,
                filter,
                rows,
                i + 1,
                if datum::holds(d) {
                    Changed { rows: acc.rows, count: next_count(acc.count), left: acc.left }
                } else {
                    Changed { rows: acc.rows.push(rows[i]), count: acc.count, left: acc.left }
                },
            ),
        }
    }
}

/// The rows of a table after a deletion.
pub open spec fn deleted(cx: CxModel, t: TableModel, filter: Expr) -> Result<Changed, Fault> {
    let fs = fields::table_fields(t.columns, t.name);
    match analyze::condition_type(
        cx,
        Env::Frame(&fs, &Tuple::Nil, &Env::Empty),
        false,
        filter,
    ) {
        Err(f) => Err(f),
        Ok(_) => left_from(
            cx,
            fs,
            filter,
            t.rows,
            0,
            Changed { rows: Seq::empty(), count: 0, left: cx.db.draws },
        ),
    }
}

/// A value as a column holds it.
pub open spec fn stored_value(t: Seq<Seq<char>>, c: Column, d: Datum) -> Result<Datum, Fault>
{
    match eval::cast_value(t, d, c.ty) {
        Err(Fault::OperatorMissing) => Err(Fault::ColumnMismatch { name: c.name }),
        Err(f) => Err(f),
        Ok(v) => if v == Datum::Null && c.not_null {
            Err(Fault::NullViolation { name: c.name })
        } else {
            limited(t, c, v)
        },
    }
}

/// A value, unless it is a text that is too long for a column.
pub open spec fn limited(t: Seq<Seq<char>>, c: Column, v: Datum) -> Result<Datum, Fault>
{
    match (c.limit, v) {
        (Some(l), Datum::Text(i)) => if symbols::text_at(t, i).len() > l.length {
            if l.fixed {
                Err(Fault::TooLongFixed { length: l.length })
            } else {
                Err(Fault::TooLong { length: l.length })
            }
        } else {
            Ok(v)
        },
        _ => Ok(v),
    }
}

/// What a column gets when no value is given for it, where that is one value for all
/// rows.
pub open spec fn filler_of(c: Column) -> Datum
{
    match c.filler {
        Filler::Null => Datum::Null,
        Filler::Value(d) => d,
        Filler::Next(_) => Datum::Null,
    }
}

/// The next value of a sequence.
pub open spec fn drawn(cx: CxModel, n: Name, ds: Draws) -> Result<Given, Fault>
{
    match sequence_named(cx, n) {
        None => Err(Fault::UndefinedSequence { name: n.name }),
        Some(s) => {
            let last: i64 = catalog::last_drawn(ds, s);
            if last < 9223372036854775807 {
                Ok(
                    Given {
                        value: Datum::Big((last + 1) as i64),
                        left: catalog::with_drawn(ds, s, (last + 1) as i64),
                    },
                )
            } else {
                Err(Fault::SequenceLimit { name: n.name })
            }
        },
    }
}

/// What a column gets when no value is given for it.
pub open spec fn filled(cx: CxModel, c: Column, ds: Draws) -> Result<Given, Fault>
{
    match c.filler {
        Filler::Next(n) => drawn(cx, n, ds),
        _ => Ok(Given { value: filler_of(c), left: ds }),
    }
}

/// The columns with the given names, each named once.
pub open spec fn targets(cs: Columns, names: Idents) -> Result<Columns, Fault>
    decreases names,
{
    match names {
        Idents::Nil => Ok(Columns::Nil),
        Idents::Cons(n, rest) => if fields::has_ident(*rest, n) {
            Err(Fault::DuplicateColumn { name: n })
        } else {
            match catalog::column_named(cs, n) {
                None => Err(Fault::UndefinedColumn { table: None, name: n }),
                Some(c) => {
                    match targets(cs, *rest) {
                        Err(f) => Err(f),
                        Ok(more) => {
                            Ok(Columns::Cons(c, Box::new(more)))
                        },
                    }
                },
            }
        },
    }
}

/// The columns that an insertion gives values to: those that it names, or all.
pub open spec fn target_columns(cs: Columns, names: Idents) -> Result<Columns, Fault>
{
    match names {
        Idents::Nil => Ok(cs),
        _ => targets(cs, names),
    }
}

/// The values that one row of an insertion gives to the columns `ts`. Where
/// `partial`, the last columns may be left out.
pub open spec fn row_cells(
    cx: CxModel,
    ts: Columns,
    es: Exprs,
    partial: bool,
    ds: Draws,
) -> Result<Cells, Fault>
    decreases es,
{
    match (ts, es) {
        (Columns::Nil, Exprs::Nil) => Ok(Cells { row: Tuple::Nil, left: ds }),
        (Columns::Cons(c, more), Exprs::Cons(e, rest)) => {
            match given_value(cx, Env::Empty, c, *e, ds) {
                Err(f) => Err(f),
                Ok(g) => {
                    match row_cells(cx, *more, *rest, partial, g.left) {
                        Err(f) => Err(f),
                        Ok(others) => {
                            Ok(
                                Cells {
                                    row: Tuple::Cons(g.value, Box::new(others.row)),
                                    left: others.left,
                                },
                            )
                        },
                    }
                },
            }
        },
        (Columns::Cons(_, _), Exprs::Nil) => if partial {
            Ok(Cells { row: Tuple::Nil, left: ds })
        } else {
            Err(Fault::InsertWidth)
        },
        _ => Err(Fault::InsertWidth),
    }
}

/// The value that an expression gives to a column.
pub open spec fn given_value(
    cx: CxModel,
    env: Env,
    c: Column,
    e: Expr,
    ds: Draws,
) -> Result<Given, Fault>
{
    match e {
        Expr::Default => filled(cx, c, ds),
        _ => found_value(cx, env, e, ds),
    }
}

/// The value of an expression, which may be drawn from a sequence.
pub open spec fn found_value(cx: CxModel, env: Env, e: Expr, ds: Draws) -> Result<Given, Fault>
{
    match e {
        Expr::Next(n, _) => drawn(cx, n, ds),
        _ => {
            match eval::expr_value(cx, env, None, e) {
                Err(f) => Err(f),
                Ok(d) => {
                    Ok(Given { value: d, left: ds })
                },
            }
        },
    }
}

/// The values of a select list that stands alone.
pub open spec fn item_cells(cx: CxModel, items: Items, ds: Draws) -> Result<Cells, Fault>
    decreases items,
{
    match items {
        Items::Nil => Ok(Cells { row: Tuple::Nil, left: ds }),
        Items::Cons(Item::Expr(e, _), rest) => {
            match found_value(cx, Env::Empty, *e, ds) {
                Err(f) => Err(f),
                Ok(g) => {
                    match item_cells(cx, *rest, g.left) {
                        Err(f) => Err(f),
                        Ok(more) => {
                            Ok(
                                Cells {
                                    row: Tuple::Cons(g.value, Box::new(more.row)),
                                    left: more.left,
                                },
                            )
                        },
                    }
                },
            }
        },
        Items::Cons(_, rest) => item_cells(cx, *rest, ds),
    }
}

/// Whether a query has as many columns as it is to give values to.
pub open spec fn width_ok(fs: Fields, ts: Columns, partial: bool) -> bool
    decreases fs,
{
    match (fs, ts) {
        (Fields::Nil, Columns::Nil) => true,
        (Fields::Cons(_, more), Columns::Cons(_, rest)) => width_ok(*more, *rest, partial),
        (Fields::Nil, Columns::Cons(_, _)) => partial,
        _ => false,
    }
}

/// The value that is given to a column, if one is.
pub open spec fn cell_for(ts: Columns, cells: Tuple, name: usize) -> Option<Datum>
    decreases ts,
{
    match (ts, cells) {
        (Columns::Cons(c, more), Tuple::Cons(d, rest)) => if c.name == name {
            Some(d)
        } else {
            cell_for(*more, *rest, name)
        },
        _ => None,
    }
}

/// A row of a table: for each column the value that is given to it, or what it
/// gets otherwise.
pub open spec fn complete_row(
    cx: CxModel,
    cs: Columns,
    ts: Columns,
    cells: Tuple,
    ds: Draws,
) -> Result<Cells, Fault>
    decreases cs,
{
    match cs {
        Columns::Nil => Ok(Cells { row: Tuple::Nil, left: ds }),
        Columns::Cons(c, rest) => {
            match cell_or_filler(cx, c, ts, cells, ds) {
                Err(f) => Err(f),
                Ok(g) => {
                    match stored_value(cx.symbols, c, g.value) {
                        Err(f) => Err(f),
                        Ok(v) => {
                            match complete_row(cx, *rest, ts, cells, g.left) {
                                Err(f) => Err(f),
                                Ok(more) => {
                                    Ok(
                                        Cells {
                                            row: Tuple::Cons(v, Box::new(more.row)),
                                            left: more.left,
                                        },
                                    )
                                },
                            }
                        },
                    }
                },
            }
        },
    }
}

/// The value that is given to a column, or what it gets otherwise.
pub open spec fn cell_or_filler(
    cx: CxModel,
    c: Column,
    ts: Columns,
    cells: Tuple,
    ds: Draws,
) -> Result<Given, Fault>
{
    match cell_for(ts, cells, c.name) {
        Some(d) => Ok(Given { value: d, left: ds }),
        None => filled(cx, c, ds),
    }
}

/// The value of a row in the column with the given name; null if there is none.
pub open spec fn cell_named(cs: Columns, row: Tuple, name: usize) -> Datum
    decreases cs,
{
    match (cs, row) {
        (Columns::Cons(c, more), Tuple::Cons(d, rest)) => if c.name == name {
            d
        } else {
            cell_named(*more, *rest, name)
        },
        _ => Datum::Null,
    }
}

/// A row with another value in the column with the given name.
pub open spec fn with_named(cs: Columns, row: Tuple, name: usize, d: Datum) -> Tuple
    decreases cs,
{
    match (cs, row) {
        (Columns::Cons(c, more), Tuple::Cons(x, rest)) => if c.name == name {
            Tuple::Cons(d, Box::new(*rest))
        } else {
            Tuple::Cons(x, Box::new(with_named(*more, *rest, name, d)))
        },
        _ => row,
    }
}

/// A row without its value in the column with the given name.
pub open spec fn without_named(cs: Columns, row: Tuple, name: usize) -> Tuple
    decreases cs,
{
    match (cs, row) {
        (Columns::Cons(c, more), Tuple::Cons(x, rest)) => if c.name == name {
            *rest
        } else {
            Tuple::Cons(x, Box::new(without_named(*more, *rest, name)))
        },
        _ => row,
    }
}

/// A row after assignments, whose values are those before all of them.
pub open spec fn assigned(
    cx: CxModel,
    env: Env,
    cs: Columns,
    assigns: Assigns,
    row: Tuple,
    ds: Draws,
) -> Result<Cells, Fault>
    decreases assigns,
{
    match assigns {
        Assigns::Nil => Ok(Cells { row: row, left: ds }),
        Assigns::Cons(n, e, rest) => match catalog::column_named(cs, n) {
            None => Err(Fault::UndefinedColumn { table: None, name: n }),
            Some(c) => {
                match given_value(cx, env, c, *e, ds) {
                    Err(f) => Err(f),
                    Ok(g) => {
                        match stored_value(cx.symbols, c, g.value) {
                            Err(f) => Err(f),
                            Ok(v) => {
                                match assigned(cx, env, cs, *rest, row, g.left) {
                                    Err(f) => Err(f),
                                    Ok(others) => {
                                        Ok(
                                            Cells {
                                                row: with_named(cs, others.row, n, v),
                                                left: others.left,
                                            },
                                        )
                                    },
                                }
                            },
                        }
                    },
                }
            },
        },
    }
}

/// Whether all that assignments refer to is there.
pub open spec fn assigns_ok(
    cx: CxModel,
    env: Env,
    cs: Columns,
    assigns: Assigns,
) -> Result<(), Fault>
    decreases assigns,
{
    match assigns {
        Assigns::Nil => Ok(()),
        Assigns::Cons(n, e, rest) => match catalog::column_named(cs, n) {
            None => Err(Fault::UndefinedColumn { table: None, name: n }),
            Some(_) => {
                match given_ok(cx, env, *e) {
                    Err(f) => Err(f),
                    Ok(_) => {
                        assigns_ok(cx, env, cs, *rest)
                    },
                }
            },
        },
    }
}

/// Whether all that the value of a column refers to is there.
pub open spec fn given_ok(cx: CxModel, env: Env, e: Expr) -> Result<(), Fault>
{
    match e {
        Expr::Default => Ok(()),
        _ => {
            match analyze::expr_type(cx, env, false, e) {
                Err(f) => Err(f),
                Ok(_t) => {
                    Ok(())
                },
            }
        },
    }
}

pub fn write_stored_value(t: &Symbols, c: Column, d: Datum) -> (out: Result<Datum, Fault>)
    ensures
        out == stored_value(t@, c, d),
{
    match eval::eval_cast_value(t, d, c.ty) {
        Err(Fault::OperatorMissing) => Err(Fault::ColumnMismatch { name: c.name }),
        Err(f) => Err(f),
        Ok(v) => if v == Datum::Null && c.not_null {
            Err(Fault::NullViolation { name: c.name })
        } else {
            write_limited(t, c, v)
        },
    }
}

pub fn write_limited(t: &Symbols, c: Column, v: Datum) -> (out: Result<Datum, Fault>)
    ensures
        out == limited(t@, c, v),
{
    match (c.limit, v) {
        (Some(l), Datum::Text(i)) => if length_of(t, i) > l.length {
            if l.fixed {
                Err(Fault::TooLongFixed { length: l.length })
            } else {
                Err(Fault::TooLong { length: l.length })
            }
        } else {
            Ok(v)
        },
        _ => Ok(v),
    }
}

pub fn write_filler_of(c: Column) -> (out: Datum)
    ensures
        out == filler_of(c),
{
    match c.filler {
        Filler::Null => Datum::Null,
        Filler::Value(d) => d,
        Filler::Next(_) => Datum::Null,
    }
}

pub fn write_drawn(cx: &Cx, n: Name, ds: &Draws) -> (out: Result<Given, Fault>)
    ensures
        out == drawn(cx@, n, *ds),
{
    match find_sequence(cx, n) {
        None => Err(Fault::UndefinedSequence { name: n.name }),
        Some(s) => {
            let last: i64 = ds.last(s);
            if last < 9223372036854775807 {
                Ok(Given { value: Datum::Big(last + 1), left: ds.with(s, last + 1) })
            } else {
                Err(Fault::SequenceLimit { name: n.name })
            }
        },
    }
}

pub fn write_filled(cx: &Cx, c: Column, ds: &Draws) -> (out: Result<Given, Fault>)
    ensures
        out == filled(cx@, c, *ds),
{
    match c.filler {
        Filler::Next(n) => write_drawn(cx, n, ds),
        _ => Ok(Given { value: write_filler_of(c), left: ds.copy() }),
    }
}

pub fn write_targets(cs: &Columns, names: &Idents) -> (out: Result<Columns, Fault>)
    ensures
        out == targets(*cs, *names),
    decreases names,
{
    match names {
        Idents::Nil => Ok(Columns::Nil),
        Idents::Cons(n, rest) => if fields::ident_in(rest, *n) {
            Err(Fault::DuplicateColumn { name: *n })
        } else {
            match cs.named(*n) {
                None => Err(Fault::UndefinedColumn { table: None, name: *n }),
                Some(c) => {
                    let more: Columns = write_targets(cs, rest)?;
                    Ok(Columns::Cons(c, Box::new(more)))
                },
            }
        },
    }
}

pub fn write_target_columns(cs: &Columns, names: &Idents) -> (out: Result<Columns, Fault>)
    ensures
        out == target_columns(*cs, *names),
{
    match names {
        Idents::Nil => Ok(cs.copy()),
        _ => write_targets(cs, names),
    }
}

pub fn write_row_cells(
    cx: &Cx,
    ts: &Columns,
    es: &Exprs,
    partial: bool,
    ds: &Draws,
) -> (out: Result<Cells, Fault>)
    ensures
        out == row_cells(cx@, *ts, *es, partial, *ds),
    decreases es,
{
    match (ts, es) {
        (Columns::Nil, Exprs::Nil) => Ok(Cells { row: Tuple::Nil, left: ds.copy() }),
        (Columns::Cons(c, more), Exprs::Cons(e, rest)) => {
            let g: Given = write_given_value(cx, &Env::Empty, *c, e, ds)?;
            let others: Cells = write_row_cells(cx, more, rest, partial, &g.left)?;
            Ok(Cells { row: Tuple::Cons(g.value, Box::new(others.row)), left: others.left })
        },
        (Columns::Cons(_, _), Exprs::Nil) => if partial {
            Ok(Cells { row: Tuple::Nil, left: ds.copy() })
        } else {
            Err(Fault::InsertWidth)
        },
        _ => Err(Fault::InsertWidth),
    }
}

pub fn write_given_value(
    cx: &Cx,
    env: &Env,
    c: Column,
    e: &Expr,
    ds: &Draws,
) -> (out: Result<Given, Fault>)
    ensures
        out == given_value(cx@, *env, c, *e, *ds),
{
    match e {
        Expr::Default => write_filled(cx, c, ds),
        _ => write_found_value(cx, env, e, ds),
    }
}

pub fn write_found_value(cx: &Cx, env: &Env, e: &Expr, ds: &Draws) -> (out: Result<Given, Fault>)
    ensures
        out == found_value(cx@, *env, *e, *ds),
{
    match e {
        Expr::Next(n, _) => write_drawn(cx, *n, ds),
        _ => {
            let d: Datum = eval::eval_expr_value(cx, env, None, e)?;
            Ok(Given { value: d, left: ds.copy() })
        },
    }
}

pub fn write_item_cells(cx: &Cx, items: &Items, ds: &Draws) -> (out: Result<Cells, Fault>)
    ensures
        out == item_cells(cx@, *items, *ds),
    decreases items,
{
    match items {
        Items::Nil => Ok(Cells { row: Tuple::Nil, left: ds.copy() }),
        Items::Cons(Item::Expr(e, _), rest) => {
            let g: Given = write_found_value(cx, &Env::Empty, e, ds)?;
            let more: Cells = write_item_cells(cx, rest, &g.left)?;
            Ok(Cells { row: Tuple::Cons(g.value, Box::new(more.row)), left: more.left })
        },
        Items::Cons(_, rest) => write_item_cells(cx, rest, ds),
    }
}

pub fn write_width_ok(fs: &Fields, ts: &Columns, partial: bool) -> (out: bool)
    ensures
        out == width_ok(*fs, *ts, partial),
    decreases fs,
{
    match (fs, ts) {
        (Fields::Nil, Columns::Nil) => true,
        (Fields::Cons(_, more), Columns::Cons(_, rest)) => write_width_ok(more, rest, partial),
        (Fields::Nil, Columns::Cons(_, _)) => partial,
        _ => false,
    }
}

pub fn write_cell_for(ts: &Columns, cells: &Tuple, name: usize) -> (out: Option<Datum>)
    ensures
        out == cell_for(*ts, *cells, name),
    decreases ts,
{
    match (ts, cells) {
        (Columns::Cons(c, more), Tuple::Cons(d, rest)) => if c.name == name {
            Some(*d)
        } else {
            write_cell_for(more, rest, name)
        },
        _ => None,
    }
}

pub fn write_complete_row(
    cx: &Cx,
    cs: &Columns,
    ts: &Columns,
    cells: &Tuple,
    ds: &Draws,
) -> (out: Result<Cells, Fault>)
    ensures
        out == complete_row(cx@, *cs, *ts, *cells, *ds),
    decreases cs,
{
    match cs {
        Columns::Nil => Ok(Cells { row: Tuple::Nil, left: ds.copy() }),
        Columns::Cons(c, rest) => {
            let g: Given = write_cell_or_filler(cx, *c, ts, cells, ds)?;
            let v: Datum = write_stored_value(cx.symbols, *c, g.value)?;
            let more: Cells = write_complete_row(cx, rest, ts, cells, &g.left)?;
            Ok(Cells { row: Tuple::Cons(v, Box::new(more.row)), left: more.left })
        },
    }
}

pub fn write_cell_or_filler(
    cx: &Cx,
    c: Column,
    ts: &Columns,
    cells: &Tuple,
    ds: &Draws,
) -> (out: Result<Given, Fault>)
    ensures
        out == cell_or_filler(cx@, c, *ts, *cells, *ds),
{
    match write_cell_for(ts, cells, c.name) {
        Some(d) => Ok(Given { value: d, left: ds.copy() }),
        None => write_filled(cx, c, ds),
    }
}

pub fn write_cell_named(cs: &Columns, row: &Tuple, name: usize) -> (out: Datum)
    ensures
        out == cell_named(*cs, *row, name),
    decreases cs,
{
    match (cs, row) {
        (Columns::Cons(c, more), Tuple::Cons(d, rest)) => if c.name == name {
            *d
        } else {
            write_cell_named(more, rest, name)
        },
        _ => Datum::Null,
    }
}

pub fn write_with_named(cs: &Columns, row: &Tuple, name: usize, d: Datum) -> (out: Tuple)
    ensures
        out == with_named(*cs, *row, name, d),
    decreases cs,
{
    match (cs, row) {
        (Columns::Cons(c, more), Tuple::Cons(x, rest)) => if c.name == name {
            Tuple::Cons(d, Box::new(rest.copy()))
        } else {
            Tuple::Cons(*x, Box::new(write_with_named(more, rest, name, d)))
        },
        _ => row.copy(),
    }
}

pub fn write_without_named(cs: &Columns, row: &Tuple, name: usize) -> (out: Tuple)
    ensures
        out == without_named(*cs, *row, name),
    decreases cs,
{
    match (cs, row) {
        (Columns::Cons(c, more), Tuple::Cons(x, rest)) => if c.name == name {
            rest.copy()
        } else {
            Tuple::Cons(*x, Box::new(write_without_named(more, rest, name)))
        },
        _ => row.copy(),
    }
}

pub fn write_assigned(
    cx: &Cx,
    env: &Env,
    cs: &Columns,
    assigns: &Assigns,
    row: &Tuple,
    ds: &Draws,
) -> (out: Result<Cells, Fault>)
    ensures
        out == assigned(cx@, *env, *cs, *assigns, *row, *ds),
    decreases assigns,
{
    match assigns {
        Assigns::Nil => Ok(Cells { row: row.copy(), left: ds.copy() }),
        Assigns::Cons(n, e, rest) => match cs.named(*n) {
            None => Err(Fault::UndefinedColumn { table: None, name: *n }),
            Some(c) => {
                let g: Given = write_given_value(cx, env, c, e, ds)?;
                let v: Datum = write_stored_value(cx.symbols, c, g.value)?;
                let others: Cells = write_assigned(cx, env, cs, rest, row, &g.left)?;
                Ok(Cells { row: write_with_named(cs, &others.row, *n, v), left: others.left })
            },
        },
    }
}

pub fn write_assigns_ok(
    cx: &Cx,
    env: &Env,
    cs: &Columns,
    assigns: &Assigns,
) -> (out: Result<(), Fault>)
    ensures
        out == assigns_ok(cx@, *env, *cs, *assigns),
    decreases assigns,
{
    match assigns {
        Assigns::Nil => Ok(()),
        Assigns::Cons(n, e, rest) => match cs.named(*n) {
            None => Err(Fault::UndefinedColumn { table: None, name: *n }),
            Some(_) => {
                let _: () = write_given_ok(cx, env, e)?;
                write_assigns_ok(cx, env, cs, rest)
            },
        },
    }
}

pub fn write_given_ok(cx: &Cx, env: &Env, e: &Expr) -> (out: Result<(), Fault>)
    ensures
        out == given_ok(cx@, *env, *e),
{
    match e {
        Expr::Default => Ok(()),
        _ => {
            let _t: Ty = analyze::infer_expr_type(cx, env, false, e)?;
            Ok(())
        },
    }
}

fn length_of(t: &Symbols, i: usize) -> (r: u64)
    ensures
        r == symbols::text_at(t@, i).len(),
{
    text::chars_of(t.text(i).as_str()).len() as u64
}

/// Whether an answer holds the rows that are stated.
pub open spec fn fed_is(r: Result<(Vec<Tuple>, Draws), Fault>, s: Result<Fed, Fault>) -> bool {
    match (r, s) {
        (Ok((rows, left)), Ok(f)) => rows@ == f.rows && left == f.left,
        (Err(f), Err(g)) => f == g,
        _ => false,
    }
}

/// Finds the sequence with a name.
pub fn find_sequence(cx: &Cx, n: Name) -> (r: Option<Sequence>)
    ensures
        r == sequence_named(cx@, n),
{
    match cx.db.resolve_sequence(cx.path, n) {
        None => None,
        Some(i) => Some(cx.db.sequences[i]),
    }
}

fn write_value_cells(
    cx: &Cx,
    ts: &Columns,
    partial: bool,
    rows: &ExprRows,
    acc: Vec<Tuple>,
    ds: Draws,
) -> (out: Result<(Vec<Tuple>, Draws), Fault>)
    ensures
        fed_is(out, value_cells(cx@, *ts, partial, *rows, (Fed { rows: acc@, left: ds }))),
    decreases rows,
{
    match rows {
        ExprRows::Nil => Ok((acc, ds)),
        ExprRows::Cons(row, rest) => {
            let t: Cells = write_row_cells(cx, ts, row, partial, &ds)?;
            let mut more: Vec<Tuple> = acc;
            more.push(t.row);
            write_value_cells(cx, ts, partial, rest, more, t.left)
        },
    }
}

pub fn write_feed_cells(cx: &Cx, ts: &Columns, partial: bool, feed: &Feed) -> (out: Result<
    (Vec<Tuple>, Draws),
    Fault,
>)
    ensures
        fed_is(out, feed_cells(cx@, *ts, partial, *feed)),
{
    match feed {
        Feed::Values(rows) => write_value_cells(
            cx,
            ts,
            partial,
            rows,
            Vec::new(),
            cx.db.draws.copy(),
        ),
        Feed::Query(q) => {
            let fs: Fields = analyze::infer_query_fields(cx, &Env::Empty, q)?;
            if write_width_ok(&fs, ts, partial) {
                let rows: Vec<Tuple> = eval::eval_query_rows(cx, &Env::Empty, q)?;
                Ok((rows, cx.db.draws.copy()))
            } else {
                Err(Fault::InsertWidth)
            }
        },
        Feed::Fillers => {
            let rows: Vec<Tuple> = vec![Tuple::Nil];
            assert(rows@ =~= seq![Tuple::Nil]);
            Ok((rows, cx.db.draws.copy()))
        },
    }
}

pub fn write_complete_rows(cx: &Cx, cs: &Columns, ts: &Columns, cells: &Vec<Tuple>, ds: Draws) -> (out:
    Result<(Vec<Tuple>, Draws), Fault>)
    ensures
        fed_is(
            out,
            complete_rows(
                cx@,
                *cs,
                *ts,
                cells@,
                0,
                (Fed { rows: Seq::empty(), left: ds }),
            ),
        ),
{
    let ghost goal = complete_rows(
        cx@,
        *cs,
        *ts,
        cells@,
        0,
        Fed { rows: Seq::empty(), left: ds },
    );
    let mut acc: Vec<Tuple> = Vec::new();
    let mut left: Draws = ds;
    let mut i: usize = 0;
    while i < cells.len()
        invariant
            i <= cells.len(),
            goal == complete_rows(
                cx@,
                *cs,
                *ts,
                cells@,
                0,
                (Fed { rows: Seq::empty(), left: ds }),
            ),
            goal == complete_rows(cx@, *cs, *ts, cells@, i as int, (Fed { rows: acc@, left })),
        decreases cells.len() - i,
    {
        let c: Cells = write_complete_row(cx, cs, ts, &cells[i], &left)?;
        acc.push(c.row);
        left = c.left;
        i += 1;
    }
    Ok((acc, left))
}

/// The rows that an insertion adds.
pub fn make_rows(cx: &Cx, cs: &Columns, names: &Idents, feed: &Feed) -> (out: Result<
    (Vec<Tuple>, Draws),
    Fault,
>)
    ensures
        fed_is(out, new_rows(cx@, *cs, *names, *feed)),
{
    let ts: Columns = write_target_columns(cs, names)?;
    let (cells, left): (Vec<Tuple>, Draws) = write_feed_cells(
        cx,
        &ts,
        matches!(names, Idents::Nil),
        feed,
    )?;
    write_complete_rows(cx, cs, &ts, &cells, left)
}

fn any_cell(cs: &Columns, rows: &Vec<Tuple>, name: usize, d: Datum) -> (out: bool)
    ensures
        out == has_cell(*cs, rows@, name, d),
{
    let mut j: usize = 0;
    while j < rows.len()
        invariant
            j <= rows.len(),
            forall|k: int| 0 <= k < j ==> cell_named(*cs, #[trigger] rows@[k], name) != d,
        decreases rows.len() - j,
    {
        if write_cell_named(cs, &rows[j], name) == d {
            assert(cell_named(*cs, rows@[j as int], name) == d);
            return true;
        }
        j += 1;
    }
    false
}

pub fn find_clash(
    cs: &Columns,
    some: &Columns,
    rows: &Vec<Tuple>,
    x: &Tuple,
) -> (out: Option<usize>)
    ensures
        out == clash(*cs, *some, rows@, *x),
    decreases some,
{
    match some {
        Columns::Nil => None,
        Columns::Cons(c, rest) => {
            let d: Datum = write_cell_named(cs, x, c.name);
            if c.unique && d != Datum::Null && any_cell(cs, rows, c.name, d) {
                Some(c.name)
            } else {
                find_clash(cs, rest, rows, x)
            }
        },
    }
}

/// Adds rows to those of a table one by one.
pub fn write_place_rows(cs: &Columns, rows: Vec<Tuple>, more: &Vec<Tuple>) -> (out: Result<
    Vec<Tuple>,
    Fault,
>)
    ensures
        eval::result_view_rowsr(out) == place_rows(*cs, rows@, more@, 0),
{
    let mut acc: Vec<Tuple> = rows;
    let mut i: usize = 0;
    while i < more.len()
        invariant
            i <= more.len(),
            place_rows(*cs, rows@, more@, 0) == place_rows(*cs, acc@, more@, i as int),
        decreases more.len() - i,
    {
        match find_clash(cs, cs, &acc, &more[i]) {
            Some(name) => {
                return Err(Fault::UniqueViolation { name });
            },
            None => {},
        }
        acc.push(more[i].copy());
        i += 1;
    }
    Ok(acc)
}

/// The rows of a table after an insertion.
pub fn insert(cx: &Cx, t: &Table, names: &Idents, feed: &Feed) -> (out: Result<
    (Vec<Tuple>, Draws),
    Fault,
>)
    ensures
        fed_is(out, inserted(cx@, t@, *names, *feed)),
{
    let (more, left): (Vec<Tuple>, Draws) = make_rows(cx, &t.columns, names, feed)?;
    let rows: Vec<Tuple> = write_place_rows(
        &t.columns,
        relation::copy_rows(&t.rows),
        &more,
    )?;
    Ok((rows, left))
}

/// What comes of an update or a deletion: rows, how many were changed, and what is left
/// of sequences.
pub struct Outcome {
    pub rows: Vec<Tuple>,
    pub count: u64,
    pub left: Draws,
}

/// Whether an answer of `update` or `delete` is the one that is stated.
pub open spec fn change_is(r: Result<Outcome, Fault>, s: Result<Changed, Fault>) -> bool {
    match (r, s) {
        (Ok(o), Ok(c)) => o.rows@ == c.rows && o.count == c.count && o.left == c.left,
        (Err(f), Err(g)) => f == g,
        _ => false,
    }
}

pub fn more_count(n: u64) -> (out: u64)
    ensures
        out == next_count(n),
{
    if n < u64::MAX {
        n + 1
    } else {
        n
    }
}

fn update_rows(
    cx: &Cx,
    fs: &Fields,
    cs: &Columns,
    assigns: &Assigns,
    filter: &Expr,
    rows: &Vec<Tuple>,
) -> (out: Result<Outcome, Fault>)
    ensures
        change_is(
            out,
            updated_from(
                cx@,
                *fs,
                *cs,
                *assigns,
                *filter,
                rows@,
                0,
                (Changed { rows: Seq::empty(), count: 0, left: cx@.db.draws }),
            ),
        ),
{
    let ghost goal = updated_from(
        cx@,
        *fs,
        *cs,
        *assigns,
        *filter,
        rows@,
        0,
        Changed { rows: Seq::empty(), count: 0, left: cx@.db.draws },
    );
    let mut acc: Vec<Tuple> = Vec::new();
    let mut count: u64 = 0;
    let mut left: Draws = cx.db.draws.copy();
    let mut i: usize = 0;
    while i < rows.len()
        invariant
            i <= rows.len(),
            goal == updated_from(
                cx@,
                *fs,
                *cs,
                *assigns,
                *filter,
                rows@,
                0,
                (Changed { rows: Seq::empty(), count: 0, left: cx@.db.draws }),
            ),
            goal == updated_from(
                cx@,
                *fs,
                *cs,
                *assigns,
                *filter,
                rows@,
                i as int,
                (Changed { rows: acc@, count, left }),
            ),
        decreases rows.len() - i,
    {
        let frame: Env = Env::Frame(fs, &rows[i], &Env::Empty);
        let d: Datum = eval::eval_expr_value(cx, &frame, None, filter)?;
        if d == Datum::Bool(true) {
            let c: Cells = write_assigned(cx, &frame, cs, assigns, &rows[i], &left)?;
            acc.push(c.row);
            left = c.left;
            count = more_count(count);
        } else {
            acc.push(rows[i].copy());
        }
        i += 1;
    }
    Ok(Outcome { rows: acc, count, left })
}

/// The rows of a table after an update, and how many were changed.
pub fn update(cx: &Cx, t: &Table, assigns: &Assigns, filter: &Expr) -> (out: Result<Outcome, Fault>)
    ensures
        change_is(out, updated(cx@, t@, *assigns, *filter)),
{
    let fs: Fields = Fields::of_table(&t.columns, t.name);
    let frame: Env = Env::Frame(&fs, &Tuple::Nil, &Env::Empty);
    let _t: Ty = analyze::infer_condition_type(cx, &frame, false, filter)?;
    let _: () = write_assigns_ok(cx, &frame, &t.columns, assigns)?;
    let changed: Outcome = update_rows(
        cx,
        &fs,
        &t.columns,
        assigns,
        filter,
        &t.rows,
    )?;
    let rows: Vec<Tuple> = write_place_rows(&t.columns, Vec::new(), &changed.rows)?;
    Ok(Outcome { rows, count: changed.count, left: changed.left })
}

/// The rows of a table after a deletion, and how many were deleted.
pub fn delete(cx: &Cx, t: &Table, filter: &Expr) -> (out: Result<Outcome, Fault>)
    ensures
        change_is(out, deleted(cx@, t@, *filter)),
{
    let fs: Fields = Fields::of_table(&t.columns, t.name);
    let frame: Env = Env::Frame(&fs, &Tuple::Nil, &Env::Empty);
    let _t: Ty = analyze::infer_condition_type(cx, &frame, false, filter)?;
    let ghost goal = deleted(cx@, t@, *filter);
    let mut acc: Vec<Tuple> = Vec::new();
    let mut count: u64 = 0;
    let left: Draws = cx.db.draws.copy();
    let mut i: usize = 0;
    while i < t.rows.len()
        invariant
            i <= t.rows.len(),
            goal == deleted(cx@, t@, *filter),
            left == cx@.db.draws,
            goal == left_from(
                cx@,
                fs,
                *filter,
                t.rows@,
                i as int,
                (Changed { rows: acc@, count, left }),
            ),
        decreases t.rows.len() - i,
    {
        let d: Datum = eval::eval_expr_value(
            cx,
            &Env::Frame(&fs, &t.rows[i], &Env::Empty),
            None,
            filter,
        )?;
        if d == Datum::Bool(true) {
            count = more_count(count);
        } else {
            acc.push(t.rows[i].copy());
        }
        i += 1;
    }
    Ok(Outcome { rows: acc, count, left })
}

/// An insertion leaves the rows that were there and adds its own behind them.
pub proof fn law_inserted_rows(cs: Columns, rows: Seq<Tuple>, more: Seq<Tuple>, i: int)
    requires
        0 <= i <= more.len(),
        place_rows(cs, rows, more, i) is Ok,
    ensures
        place_rows(cs, rows, more, i)->Ok_0 == rows + more.skip(i),
    decreases more.len() - i,
{
    if i < more.len() {
        law_inserted_rows(cs, rows.push(more[i]), more, i + 1);
        assert(rows.push(more[i]) + more.skip(i + 1) =~= rows + more.skip(i));
    } else {
        assert(rows + more.skip(i) =~= rows);
    }
}

/// An insertion removes no row.
pub proof fn lemma_inserted_len(cx: CxModel, t: TableModel, names: Idents, feed: Feed)
    ensures
        inserted(cx, t, names, feed) matches Ok(f) ==> f.rows.len() >= t.rows.len(),
{
    if let Ok(_) = inserted(cx, t, names, feed) {
        let more = new_rows(cx, t.columns, names, feed)->Ok_0;
        law_inserted_rows(t.columns, t.rows, more.rows, 0);
    }
}

/// Whether no two rows agree in a unique column. Nulls do not agree.
pub open spec fn all_unique(cs: Columns, rows: Seq<Tuple>) -> bool {
    forall|name: usize, i: int, j: int|
        #![trigger cell_named(cs, rows[i], name), cell_named(cs, rows[j], name)]
        0 <= i < j < rows.len() && is_unique(cs, name) && cell_named(cs, rows[j], name)
            != Datum::Null ==> cell_named(cs, rows[i], name) != cell_named(cs, rows[j], name)
}

/// Whether the column with the given name is unique.
pub open spec fn is_unique(cs: Columns, name: usize) -> bool {
    match catalog::column_named(cs, name) {
        Some(c) => c.unique,
        None => false,
    }
}

pub proof fn lemma_no_clash(cs: Columns, some: Columns, rows: Seq<Tuple>, x: Tuple, name: usize)
    requires
        clash(cs, some, rows, x) is None,
        is_unique(some, name),
        cell_named(cs, x, name) != Datum::Null,
    ensures
        !has_cell(cs, rows, name, cell_named(cs, x, name)),
    decreases some,
{
    match some {
        Columns::Nil => {},
        Columns::Cons(c, rest) => {
            if c.name != name {
                lemma_no_clash(cs, *rest, rows, x, name);
            }
        },
    }
}

pub proof fn lemma_unique_push(cs: Columns, rows: Seq<Tuple>, x: Tuple)
    requires
        all_unique(cs, rows),
        clash(cs, cs, rows, x) is None,
    ensures
        all_unique(cs, rows.push(x)),
{
    let all = rows.push(x);
    assert forall|name: usize, i: int, j: int|
        #![trigger cell_named(cs, all[i], name), cell_named(cs, all[j], name)]
        0 <= i < j < all.len() && is_unique(cs, name) && cell_named(cs, all[j], name)
            != Datum::Null implies cell_named(cs, all[i], name) != cell_named(
        cs,
        all[j],
        name,
    ) by {
        assert(all[i] == rows[i]);
        if j < rows.len() {
            assert(all[j] == rows[j]);
        } else {
            lemma_no_clash(cs, cs, rows, x, name);
            assert(cell_named(cs, rows[i], name) != cell_named(cs, x, name));
        }
    }
}

/// Rows that were added one by one keep what a table's unique columns promise.
pub proof fn law_placed_unique(cs: Columns, rows: Seq<Tuple>, more: Seq<Tuple>, i: int)
    requires
        all_unique(cs, rows),
        0 <= i <= more.len(),
        place_rows(cs, rows, more, i) is Ok,
    ensures
        all_unique(cs, place_rows(cs, rows, more, i)->Ok_0),
    decreases more.len() - i,
{
    if i < more.len() {
        lemma_unique_push(cs, rows, more[i]);
        law_placed_unique(cs, rows.push(more[i]), more, i + 1);
    }
}

} // verus!
