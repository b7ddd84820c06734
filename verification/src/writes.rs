//! Laws of what statements write: which values new and changed rows have, which rows are
//! refused, and what is given back of them.

use vstd::prelude::*;
use crate::analyze::CxModel;
use crate::ast::Assigns;
use crate::ast::Column;
use crate::ast::Columns;
use crate::ast::Conflict;
use crate::ast::Expr;
use crate::ast::ExprRows;
use crate::ast::Exprs;
use crate::ast::Feed;
use crate::ast::Filler;
use crate::ast::Idents;
use crate::ast::Items;
use crate::ast::Stmt;
use crate::catalog;
use crate::catalog::Draws;
use crate::catalog::TableModel;
use crate::conditions;
use crate::datum;
use crate::datum::DataType;
use crate::datum::Datum;
use crate::datum::Tuple;
use crate::dml;
use crate::dml::Changed;
use crate::dml::Fed;
use crate::eval;
use crate::fault::Fault;
use crate::fields;
use crate::fields::Env;
use crate::fields::Fields;
use crate::meaning;
use crate::results;
use crate::returning;
use crate::symbols;
use crate::text;
use crate::upsert;
use crate::upsert::Upserted;

verus! {

/// How a column holds a value: null stays null unless the column refuses it; numbers stay
/// the same numbers if they fit; a text becomes the number that it denotes in a column of
/// numbers, and stays itself in a column of texts unless it is too long; truth values stay.
/// Values of other kinds are refused.
pub proof fn law_stored_value(t: Seq<Seq<char>>, c: Column, d: Datum)
    ensures
        d == Datum::Null ==> dml::stored_value(t, c, d) == if c.not_null {
            Err::<Datum, Fault>(Fault::NullViolation { name: c.name })
        } else {
            Ok::<Datum, Fault>(Datum::Null)
        },
        datum::is_number(d) ==> match c.ty {
            DataType::BigInt => dml::stored_value(t, c, d) == Ok::<Datum, Fault>(
                Datum::Big(datum::as_number(d) as i64),
            ),
            DataType::Int => if i32::MIN <= datum::as_number(d) <= i32::MAX {
                dml::stored_value(t, c, d) == Ok::<Datum, Fault>(
                    Datum::Int(datum::as_number(d) as i32),
                )
            } else {
                dml::stored_value(t, c, d) == Err::<Datum, Fault>(Fault::OutOfRange)
            },
            _ => dml::stored_value(t, c, d) == Err::<Datum, Fault>(
                Fault::ColumnMismatch { name: c.name },
            ),
        },
        d is Bool ==> match c.ty {
            DataType::Boolean => dml::stored_value(t, c, d) == Ok::<Datum, Fault>(d),
            _ => dml::stored_value(t, c, d) == Err::<Datum, Fault>(
                Fault::ColumnMismatch { name: c.name },
            ),
        },
        d matches Datum::Text(i) ==> match c.ty {
            DataType::Text => match c.limit {
                Some(l) => if symbols::text_at(t, i).len() > l.length {
                    dml::stored_value(t, c, d) == Err::<Datum, Fault>(
                        if l.fixed {
                            Fault::TooLongFixed { length: l.length }
                        } else {
                            Fault::TooLong { length: l.length }
                        },
                    )
                } else {
                    dml::stored_value(t, c, d) == Ok::<Datum, Fault>(d)
                },
                None => dml::stored_value(t, c, d) == Ok::<Datum, Fault>(d),
            },
            DataType::Boolean => dml::stored_value(t, c, d) is Err,
            DataType::BigInt => match text::integer_of(symbols::text_at(t, i)) {
                Some(n) => dml::stored_value(t, c, d) == Ok::<Datum, Fault>(Datum::Big(n)),
                None => dml::stored_value(t, c, d) is Err,
            },
            DataType::Int => match text::integer_of(symbols::text_at(t, i)) {
                Some(n) => if i32::MIN <= n <= i32::MAX {
                    dml::stored_value(t, c, d) == Ok::<Datum, Fault>(Datum::Int(n as i32))
                } else {
                    dml::stored_value(t, c, d) is Err
                },
                None => dml::stored_value(t, c, d) is Err,
            },
        },
{
}

/// The column at place `k`.
pub open spec fn column_at(cs: Columns, k: int) -> Option<Column>
    decreases cs,
{
    match cs {
        Columns::Nil => None,
        Columns::Cons(c, rest) => if k == 0 {
            Some(c)
        } else {
            column_at(*rest, k - 1)
        },
    }
}

/// Whether the column at place `j` has a name.
pub open spec fn is_named_at(cs: Columns, j: int, name: usize) -> bool {
    0 <= j < catalog::columns_len(cs) && (column_at(cs, j) matches Some(c) && c.name == name)
}

/// There is a column at each place below the number of columns.
pub proof fn lemma_column_there(cs: Columns, k: int)
    ensures
        0 <= k < catalog::columns_len(cs) ==> column_at(cs, k) is Some,
    decreases cs,
{
    if let Columns::Cons(_, rest) = cs {
        lemma_column_there(*rest, k - 1);
    }
}

proof fn lemma_cell_for(ts: Columns, cells: Tuple, name: usize)
    ensures
        match dml::cell_for(ts, cells, name) {
            Some(d) => exists|j: int|
                {
                    &&& #[trigger] is_named_at(ts, j, name)
                    &&& j < datum::tuple_len(cells)
                    &&& d == datum::cell(cells, j as nat)
                    &&& forall|i: int| 0 <= i < j ==> !#[trigger] is_named_at(ts, i, name)
                },
            None => forall|j: int| #[trigger]
                is_named_at(ts, j, name) ==> j >= datum::tuple_len(cells),
        },
    decreases ts,
{
    match (ts, cells) {
        (Columns::Cons(c, more), Tuple::Cons(d, rest)) => {
            lemma_cell_for(*more, *rest, name);
            assert forall|j: int| 1 <= j implies #[trigger] is_named_at(ts, j, name)
                == is_named_at(*more, j - 1, name) by {}
            if c.name == name {
                assert(is_named_at(ts, 0, name));
                assert(datum::cell(cells, 0) == d);
            } else {
                assert(!is_named_at(ts, 0, name));
                match dml::cell_for(*more, *rest, name) {
                    Some(v) => {
                        let j = choose|j: int|
                            {
                                &&& #[trigger] is_named_at(*more, j, name)
                                &&& j < datum::tuple_len(*rest)
                                &&& v == datum::cell(*rest, j as nat)
                                &&& forall|i: int| 0 <= i < j ==> !#[trigger] is_named_at(*more, i, name)
                            };
                        assert(is_named_at(ts, j + 1, name));
                        assert(datum::cell(cells, (j + 1) as nat) == datum::cell(*rest, j as nat));
                        assert forall|i: int| 0 <= i < j + 1 implies !#[trigger] is_named_at(
                            ts,
                            i,
                            name,
                        ) by {
                            if i > 0 {
                                assert(is_named_at(ts, i, name) == is_named_at(
                                    *more,
                                    i - 1,
                                    name,
                                ));
                            }
                        }
                    },
                    None => {
                        assert forall|j: int| #[trigger] is_named_at(ts, j, name) implies j
                            >= datum::tuple_len(cells) by {
                            if j > 0 {
                                assert(is_named_at(*more, j - 1, name));
                            }
                        }
                    },
                }
            }
        },
        _ => {},
    }
}

/// Whether `d` is what a column is to get in a new row: the value that is given for it, or
/// its default.
pub open spec fn is_due(ts: Columns, cells: Tuple, c: Column, d: Datum) -> bool {
    ||| exists|j: int|
        {
            &&& #[trigger] is_named_at(ts, j, c.name)
            &&& j < datum::tuple_len(cells)
            &&& d == datum::cell(cells, j as nat)
            &&& forall|i: int| 0 <= i < j ==> !#[trigger] is_named_at(ts, i, c.name)
        }
    ||| (forall|j: int| #[trigger] is_named_at(ts, j, c.name) ==> j >= datum::tuple_len(cells))
        && match c.filler {
        Filler::Null => d == Datum::Null,
        Filler::Value(v) => d == v,
        Filler::Next(_) => d is Big,
    }
}

/// A new row has one cell for each column of the table, and the cell is what the column makes
/// of the value that is given for it or, if none is, of its default.
pub proof fn law_new_row(
    cx: CxModel,
    cs: Columns,
    ts: Columns,
    cells: Tuple,
    ds: Draws,
    k: int,
)
    requires
        dml::complete_row(cx, cs, ts, cells, ds) is Ok,
    ensures
        ({
            let row = dml::complete_row(cx, cs, ts, cells, ds)->Ok_0.row;
            &&& datum::tuple_len(row) == catalog::columns_len(cs)
            &&& 0 <= k < catalog::columns_len(cs) ==> exists|d: Datum|
                {
                    &&& #[trigger] is_due(ts, cells, column_at(cs, k)->Some_0, d)
                    &&& dml::stored_value(cx.symbols, column_at(cs, k)->Some_0, d) == Ok::<
                        Datum,
                        Fault,
                    >(datum::cell(row, k as nat))
                }
        }),
    decreases cs,
{
    if let Columns::Cons(c, rest) = cs {
        let g = dml::cell_or_filler(cx, c, ts, cells, ds)->Ok_0;
        law_new_row(cx, *rest, ts, cells, g.left, k - 1);
        lemma_cell_for(ts, cells, c.name);
        assert(is_due(ts, cells, c, g.value));
        let row = dml::complete_row(cx, cs, ts, cells, ds)->Ok_0.row;
        let more = dml::complete_row(cx, *rest, ts, cells, g.left)->Ok_0.row;
        assert(datum::tuple_len(row) == 1 + datum::tuple_len(more));
        if k == 0 {
            assert(column_at(cs, 0) == Some(c));
            assert(is_due(ts, cells, column_at(cs, k)->Some_0, g.value));
            assert(dml::stored_value(cx.symbols, c, g.value) == Ok::<Datum, Fault>(
                datum::cell(row, 0),
            ));
        } else if 0 < k < catalog::columns_len(cs) {
            assert(column_at(cs, k) == column_at(*rest, k - 1));
            assert(datum::cell(row, k as nat) == datum::cell(more, (k - 1) as nat));
            let d = choose|d: Datum|
                {
                    &&& #[trigger] is_due(ts, cells, column_at(*rest, k - 1)->Some_0, d)
                    &&& dml::stored_value(cx.symbols, column_at(*rest, k - 1)->Some_0, d) == Ok::<
                        Datum,
                        Fault,
                    >(datum::cell(more, (k - 1) as nat))
                };
            assert(is_due(ts, cells, column_at(cs, k)->Some_0, d));
        }
    }
}

/// A new row is refused only for a column that cannot hold the value that is given for it or
/// its default, or for a sequence that cannot be drawn from.
pub proof fn law_row_refused(cx: CxModel, cs: Columns, ts: Columns, cells: Tuple, ds: Draws)
    ensures
        dml::complete_row(cx, cs, ts, cells, ds) matches Err(f) ==> exists|k: int|
            {
                &&& 0 <= k < catalog::columns_len(cs)
                &&& (#[trigger] column_at(cs, k)) is Some
                &&& column_at(cs, k)->Some_0.filler is Next || exists|d: Datum|
                    {
                        &&& #[trigger] is_due(ts, cells, column_at(cs, k)->Some_0, d)
                        &&& dml::stored_value(cx.symbols, column_at(cs, k)->Some_0, d) == Err::<
                            Datum,
                            Fault,
                        >(f)
                    }
            },
    decreases cs,
{
    if let Columns::Cons(c, rest) = cs {
        if let Err(f) = dml::complete_row(cx, cs, ts, cells, ds) {
            lemma_cell_for(ts, cells, c.name);
            assert(column_at(cs, 0) == Some(c));
            match dml::cell_or_filler(cx, c, ts, cells, ds) {
                Err(_) => {
                    assert(c.filler is Next);
                },
                Ok(g) => {
                    assert(is_due(ts, cells, c, g.value));
                    if dml::stored_value(cx.symbols, c, g.value) is Ok {
                        law_row_refused(cx, *rest, ts, cells, g.left);
                        let k = choose|k: int|
                            {
                                &&& 0 <= k < catalog::columns_len(*rest)
                                &&& (#[trigger] column_at(*rest, k)) is Some
                                &&& column_at(*rest, k)->Some_0.filler is Next || exists|d: Datum|
                                    {
                                        &&& #[trigger] is_due(
                                            ts,
                                            cells,
                                            column_at(*rest, k)->Some_0,
                                            d,
                                        )
                                        &&& dml::stored_value(
                                            cx.symbols,
                                            column_at(*rest, k)->Some_0,
                                            d,
                                        ) == Err::<Datum, Fault>(f)
                                    }
                            };
                        assert(column_at(cs, k + 1) == column_at(*rest, k));
                    } else {
                        assert(is_due(ts, cells, column_at(cs, 0)->Some_0, g.value));
                    }
                },
            }
        }
    }
}

/// Whether `d` is what an expression gives to a column: its value, the default of the column
/// for DEFAULT, a number for one that is drawn.
pub open spec fn is_given(cx: CxModel, env: Env, c: Column, e: Expr, d: Datum) -> bool {
    match e {
        Expr::Default => match c.filler {
            Filler::Null => d == Datum::Null,
            Filler::Value(v) => d == v,
            Filler::Next(_) => d is Big,
        },
        Expr::Next(_, _) => d is Big,
        _ => conditions::is_worth(cx, env, None, e, d),
    }
}

proof fn lemma_row_cells(
    cx: CxModel,
    ts: Columns,
    es: Exprs,
    partial: bool,
    ds: Draws,
    k: int,
)
    ensures
        match dml::row_cells(cx, ts, es, partial, ds) {
            Ok(c) => {
                &&& datum::tuple_len(c.row) == conditions::exprs_len(es)
                &&& conditions::exprs_len(es) <= catalog::columns_len(ts)
                &&& partial || conditions::exprs_len(es) == catalog::columns_len(ts)
                &&& 0 <= k < conditions::exprs_len(es) ==> (column_at(ts, k) matches Some(col)
                    && is_given(
                    cx,
                    Env::Empty,
                    col,
                    conditions::expr_at(es, k),
                    datum::cell(c.row, k as nat),
                ))
            },
            Err(_) => true,
        },
    decreases es,
{
    if let (Columns::Cons(c, more), Exprs::Cons(e, rest)) = (ts, es) {
        if let Ok(g) = dml::given_value(cx, Env::Empty, c, *e, ds) {
            lemma_row_cells(cx, *more, *rest, partial, g.left, k - 1);
            assert(is_given(cx, Env::Empty, c, *e, g.value));
        }
    }
}

/// A row of values gives each expression to the column at its place. It has as many
/// expressions as there are columns to give values to, or fewer where the columns are not
/// named.
pub proof fn law_values_to_columns(
    cx: CxModel,
    ts: Columns,
    es: Exprs,
    partial: bool,
    ds: Draws,
    k: int,
)
    requires
        dml::row_cells(cx, ts, es, partial, ds) is Ok,
        0 <= k < conditions::exprs_len(es),
    ensures
        ({
            let row = dml::row_cells(cx, ts, es, partial, ds)->Ok_0.row;
            &&& datum::tuple_len(row) == conditions::exprs_len(es)
            &&& conditions::exprs_len(es) <= catalog::columns_len(ts)
            &&& partial || conditions::exprs_len(es) == catalog::columns_len(ts)
            &&& column_at(ts, k) matches Some(c) && is_given(
                cx,
                Env::Empty,
                c,
                conditions::expr_at(es, k),
                datum::cell(row, k as nat),
            )
        }),
{
    lemma_row_cells(cx, ts, es, partial, ds, k);
}

/// The column of a name is one of the columns that have it.
pub proof fn lemma_named_column(cs: Columns, name: usize)
    ensures
        match catalog::column_named(cs, name) {
            Some(c) => c.name == name && exists|j: int|
                #[trigger] is_named_at(cs, j, name) && column_at(cs, j) == Some(c),
            None => forall|j: int| !#[trigger] is_named_at(cs, j, name),
        },
    decreases cs,
{
    if let Columns::Cons(c, rest) = cs {
        lemma_named_column(*rest, name);
        assert forall|j: int| 1 <= j implies #[trigger] is_named_at(cs, j, name) == is_named_at(
            *rest,
            j - 1,
            name,
        ) by {}
        if c.name == name {
            assert(is_named_at(cs, 0, name));
        } else if let Some(d) = catalog::column_named(*rest, name) {
            let j = choose|j: int|
                #[trigger] is_named_at(*rest, j, name) && column_at(*rest, j) == Some(d);
            assert(is_named_at(cs, j + 1, name));
        }
    }
}

proof fn lemma_targets(cs: Columns, names: Idents, k: int)
    ensures
        dml::targets(cs, names) matches Ok(ts) ==> {
            &&& catalog::columns_len(ts) == results::idents_len(names)
            &&& 0 <= k < results::idents_len(names) ==> column_at(ts, k) is Some && column_at(ts, k)
                == catalog::column_named(cs, results::ident_at(names, k))
        },
    decreases names,
{
    if let Idents::Cons(_, rest) = names {
        lemma_targets(cs, *rest, k - 1);
    }
}

/// An insertion gives values to the columns that it names, in the order of their names, or to
/// all columns of the table if it names none. It names no column that is not there.
pub proof fn law_insert_targets(cs: Columns, names: Idents, k: int)
    ensures
        names is Nil ==> dml::target_columns(cs, names) == Ok::<Columns, Fault>(cs),
        !(names is Nil) ==> match dml::target_columns(cs, names) {
            Ok(ts) => {
                &&& catalog::columns_len(ts) == results::idents_len(names)
                &&& 0 <= k < results::idents_len(names) ==> (column_at(ts, k) matches Some(c)
                    && c.name == results::ident_at(names, k) && exists|j: int|
                    #[trigger] is_named_at(cs, j, c.name) && column_at(cs, j) == Some(c))
            },
            Err(_) => true,
        },
{
    lemma_targets(cs, names, k);
    if 0 <= k < results::idents_len(names) {
        lemma_named_column(cs, results::ident_at(names, k));
    }
}

proof fn lemma_value_cells(
    cx: CxModel,
    ts: Columns,
    partial: bool,
    rows: ExprRows,
    acc: Fed,
    k: int,
)
    ensures
        dml::value_cells(cx, ts, partial, rows, acc) matches Ok(f) ==> {
            &&& f.rows.len() == acc.rows.len() + results::lines_len(rows)
            &&& 0 <= k < acc.rows.len() ==> f.rows[k] == acc.rows[k]
            &&& acc.rows.len() <= k < f.rows.len() ==> exists|ds: Draws|
                (#[trigger] dml::row_cells(
                    cx,
                    ts,
                    results::line_at(rows, k - acc.rows.len()),
                    partial,
                    ds,
                )) matches Ok(c) && c.row == f.rows[k]
        },
    decreases rows,
{
    if let ExprRows::Cons(row, rest) = rows {
        if let Ok(t) = dml::row_cells(cx, ts, *row, partial, acc.left) {
            let more = Fed { rows: acc.rows.push(t.row), left: t.left };
            lemma_value_cells(cx, ts, partial, *rest, more, k);
            if dml::value_cells(cx, ts, partial, rows, acc) is Ok && k >= acc.rows.len() {
                assert(results::line_at(rows, 0) == *row);
                if k > acc.rows.len() {
                    assert(results::line_at(rows, k - acc.rows.len()) == results::line_at(
                        *rest,
                        k - acc.rows.len() - 1,
                    ));
                }
            }
        }
    }
}

/// Whether `row` is the new row of a table that the cells `given` make.
pub open spec fn is_new_row(
    cx: CxModel,
    cs: Columns,
    ts: Columns,
    given: Tuple,
    row: Tuple,
) -> bool {
    exists|ds: Draws|
        (#[trigger] dml::complete_row(cx, cs, ts, given, ds)) is Ok && dml::complete_row(
            cx,
            cs,
            ts,
            given,
            ds,
        )->Ok_0.row == row
}

proof fn lemma_complete_rows(
    cx: CxModel,
    cs: Columns,
    ts: Columns,
    cells: Seq<Tuple>,
    i: int,
    acc: Fed,
)
    requires
        0 <= i <= cells.len(),
        acc.rows.len() == i,
        forall|k: int| 0 <= k < i ==> is_new_row(cx, cs, ts, cells[k], #[trigger] acc.rows[k]),
    ensures
        dml::complete_rows(cx, cs, ts, cells, i, acc) matches Ok(f) ==> {
            &&& f.rows.len() == cells.len()
            &&& forall|k: int|
                0 <= k < cells.len() ==> is_new_row(cx, cs, ts, cells[k], #[trigger] f.rows[k])
        },
    decreases cells.len() - i,
{
    if i < cells.len() {
        if let Ok(c) = dml::complete_row(cx, cs, ts, cells[i], acc.left) {
            let more = Fed { rows: acc.rows.push(c.row), left: c.left };
            assert forall|k: int| 0 <= k < i + 1 implies is_new_row(
                cx,
                cs,
                ts,
                cells[k],
                #[trigger] more.rows[k],
            ) by {
                if k < i {
                    assert(more.rows[k] == acc.rows[k]);
                } else {
                    assert(dml::complete_row(cx, cs, ts, cells[i], acc.left) is Ok);
                }
            }
            lemma_complete_rows(cx, cs, ts, cells, i + 1, more);
        }
    }
}

/// An insertion leaves all rows of the table as they are and adds one row behind them for
/// each row that it is fed: for each list of values, or for each row of a query.
pub proof fn law_insertion(cx: CxModel, t: TableModel, names: Idents, feed: Feed)
    requires
        dml::inserted(cx, t, names, feed) is Ok,
    ensures
        ({
            let after = dml::inserted(cx, t, names, feed)->Ok_0.rows;
            let ts = dml::target_columns(t.columns, names)->Ok_0;
            let cells = dml::feed_cells(cx, ts, names is Nil, feed)->Ok_0.rows;
            &&& after.len() == t.rows.len() + cells.len()
            &&& after.take(t.rows.len() as int) == t.rows
            &&& forall|k: int|
                0 <= k < cells.len() ==> is_new_row(
                    cx,
                    t.columns,
                    ts,
                    #[trigger] cells[k],
                    after[t.rows.len() + k],
                )
            &&& feed matches Feed::Values(rows) ==> cells.len() == results::lines_len(*rows)
            &&& feed matches Feed::Query(q) ==> eval::query_rows(cx, Env::Empty, *q) == Ok::<
                Seq<Tuple>,
                Fault,
            >(cells)
            &&& feed is Fillers ==> cells == seq![Tuple::Nil]
        }),
{
    let ts = dml::target_columns(t.columns, names)->Ok_0;
    let fed = dml::feed_cells(cx, ts, names is Nil, feed)->Ok_0;
    let start = Fed { rows: Seq::empty(), left: fed.left };
    lemma_complete_rows(cx, t.columns, ts, fed.rows, 0, start);
    let more = dml::new_rows(cx, t.columns, names, feed)->Ok_0.rows;
    dml::law_inserted_rows(t.columns, t.rows, more, 0);
    assert(more.skip(0) =~= more);
    let after = dml::inserted(cx, t, names, feed)->Ok_0.rows;
    assert(after == t.rows + more);
    assert(after.take(t.rows.len() as int) =~= t.rows);
    assert forall|k: int| 0 <= k < fed.rows.len() implies is_new_row(
        cx,
        t.columns,
        ts,
        #[trigger] fed.rows[k],
        after[t.rows.len() + k],
    ) by {
        assert(after[t.rows.len() + k] == more[k]);
    }
    if let Feed::Values(rows) = feed {
        lemma_value_cells(cx, ts, names is Nil, *rows, dml::no_rows(cx), 0);
    }
}

/// The row at a place of an insertion of values has the values of the list at that place.
pub proof fn law_inserted_values(
    cx: CxModel,
    ts: Columns,
    partial: bool,
    rows: ExprRows,
    k: int,
)
    requires
        dml::value_cells(cx, ts, partial, rows, dml::no_rows(cx)) is Ok,
        0 <= k < results::lines_len(rows),
    ensures
        ({
            let cells = dml::value_cells(cx, ts, partial, rows, dml::no_rows(cx))->Ok_0.rows;
            &&& cells.len() == results::lines_len(rows)
            &&& exists|ds: Draws|
                (#[trigger] dml::row_cells(cx, ts, results::line_at(rows, k), partial, ds))
                    matches Ok(c) && c.row == cells[k]
        }),
{
    lemma_value_cells(cx, ts, partial, rows, dml::no_rows(cx), k);
}

proof fn lemma_clash(cs: Columns, some: Columns, rows: Seq<Tuple>, x: Tuple)
    ensures
        dml::clash(cs, some, rows, x) matches Some(name) ==> exists|j: int, i: int|
            {
                &&& #[trigger] is_named_at(some, j, name)
                &&& column_at(some, j)->Some_0.unique
                &&& dml::cell_named(cs, x, name) != Datum::Null
                &&& 0 <= i < rows.len()
                &&& dml::cell_named(cs, #[trigger] rows[i], name) == dml::cell_named(cs, x, name)
            },
    decreases some,
{
    if let Columns::Cons(c, rest) = some {
        lemma_clash(cs, *rest, rows, x);
        if let Some(name) = dml::clash(cs, some, rows, x) {
            let d = dml::cell_named(cs, x, c.name);
            if c.unique && d != Datum::Null && dml::has_cell(cs, rows, c.name, d) {
                let i = choose|i: int|
                    0 <= i < rows.len() && dml::cell_named(cs, #[trigger] rows[i], c.name) == d;
                assert(is_named_at(some, 0, name));
                assert(dml::cell_named(cs, rows[i], name) == d);
            } else {
                let (j, i) = choose|j: int, i: int|
                    {
                        &&& #[trigger] is_named_at(*rest, j, name)
                        &&& column_at(*rest, j)->Some_0.unique
                        &&& dml::cell_named(cs, x, name) != Datum::Null
                        &&& 0 <= i < rows.len()
                        &&& dml::cell_named(cs, #[trigger] rows[i], name) == dml::cell_named(
                            cs,
                            x,
                            name,
                        )
                    };
                assert(is_named_at(some, j + 1, name));
                assert(column_at(some, j + 1) == column_at(*rest, j));
                assert(dml::cell_named(cs, rows[i], name) == dml::cell_named(cs, x, name));
            }
        }
    }
}

/// Whether the rows at places `a` and `b` have the same value, which is not null, in the
/// unique column at place `j`.
pub open spec fn collide(cs: Columns, all: Seq<Tuple>, j: int, a: int, b: int) -> bool {
    &&& 0 <= j < catalog::columns_len(cs)
    &&& 0 <= a < b < all.len()
    &&& column_at(cs, j) matches Some(c) && {
        &&& c.unique
        &&& dml::cell_named(cs, all[a], c.name) == dml::cell_named(cs, all[b], c.name)
        &&& dml::cell_named(cs, all[b], c.name) != Datum::Null
    }
}

/// Rows are refused only if one of them has, in a unique column, a value that is not null and
/// that a row before it has in that column: rows without such a value are all added.
pub proof fn law_refused_only_if_not_unique(
    cs: Columns,
    rows: Seq<Tuple>,
    more: Seq<Tuple>,
    i: int,
)
    requires
        0 <= i <= more.len(),
    ensures
        dml::place_rows(cs, rows, more, i) matches Err(f) ==> exists|j: int, a: int, b: int|
            #[trigger] collide(cs, rows + more.skip(i), j, a, b) && f == (Fault::UniqueViolation {
                name: column_at(cs, j)->Some_0.name,
            }),
    decreases more.len() - i,
{
    if i < more.len() {
        let all = rows + more.skip(i);
        assert(all[rows.len() as int] == more[i]);
        if let Some(name) = dml::clash(cs, cs, rows, more[i]) {
            lemma_clash(cs, cs, rows, more[i]);
            let (j, a) = choose|j: int, a: int|
                {
                    &&& #[trigger] is_named_at(cs, j, name)
                    &&& column_at(cs, j)->Some_0.unique
                    &&& dml::cell_named(cs, more[i], name) != Datum::Null
                    &&& 0 <= a < rows.len()
                    &&& dml::cell_named(cs, #[trigger] rows[a], name) == dml::cell_named(
                        cs,
                        more[i],
                        name,
                    )
                };
            assert(all[a] == rows[a]);
            assert(collide(cs, all, j, a, rows.len() as int));
        } else {
            law_refused_only_if_not_unique(cs, rows.push(more[i]), more, i + 1);
            assert(rows.push(more[i]) + more.skip(i + 1) =~= all);
        }
    }
}

/// How many assignments there are.
pub open spec fn assigns_len(assigns: Assigns) -> nat
    decreases assigns,
{
    match assigns {
        Assigns::Nil => 0,
        Assigns::Cons(_, _, rest) => 1 + assigns_len(*rest),
    }
}

/// The column that the assignment at place `k` is about.
pub open spec fn assigned_at(assigns: Assigns, k: int) -> usize
    decreases assigns,
{
    match assigns {
        Assigns::Nil => 0,
        Assigns::Cons(n, _, rest) => if k == 0 {
            n
        } else {
            assigned_at(*rest, k - 1)
        },
    }
}

/// The expression of the assignment at place `k`.
pub open spec fn source_at(assigns: Assigns, k: int) -> Expr
    decreases assigns,
{
    match assigns {
        Assigns::Nil => Expr::Default,
        Assigns::Cons(_, e, rest) => if k == 0 {
            *e
        } else {
            source_at(*rest, k - 1)
        },
    }
}

/// Whether an assignment before place `k` is about a column.
pub open spec fn assigned_before(assigns: Assigns, k: int, name: usize) -> bool {
    exists|j: int| 0 <= j < k && #[trigger] assigned_at(assigns, j) == name
}

proof fn lemma_with_named_cell(cs: Columns, row: Tuple, name: usize, d: Datum)
    requires
        catalog::column_named(cs, name) is Some,
        datum::tuple_len(row) == catalog::columns_len(cs),
    ensures
        dml::cell_named(cs, dml::with_named(cs, row, name, d), name) == d,
    decreases cs,
{
    if let (Columns::Cons(c, more), Tuple::Cons(_, rest)) = (cs, row) {
        if c.name != name {
            lemma_with_named_cell(*more, *rest, name, d);
        }
    }
}

/// After assignments a column has the value that its assignment gives, computed from the row
/// before all of them and held as the column holds values; a column without an assignment
/// keeps its value, and the row its number of cells.
pub proof fn law_assigned(
    cx: CxModel,
    env: Env,
    cs: Columns,
    assigns: Assigns,
    row: Tuple,
    ds: Draws,
    k: int,
    other: usize,
)
    requires
        dml::assigned(cx, env, cs, assigns, row, ds) is Ok,
        datum::tuple_len(row) == catalog::columns_len(cs),
    ensures
        ({
            let after = dml::assigned(cx, env, cs, assigns, row, ds)->Ok_0.row;
            &&& datum::tuple_len(after) == datum::tuple_len(row)
            &&& !assigned_before(assigns, assigns_len(assigns) as int, other) ==> dml::cell_named(
                cs,
                after,
                other,
            ) == dml::cell_named(cs, row, other)
            &&& 0 <= k < assigns_len(assigns) && !assigned_before(
                assigns,
                k,
                assigned_at(assigns, k),
            ) ==> {
                let n = assigned_at(assigns, k);
                catalog::column_named(cs, n) matches Some(c) && exists|d: Datum|
                    {
                        &&& #[trigger] is_given(cx, env, c, source_at(assigns, k), d)
                        &&& dml::stored_value(cx.symbols, c, d) == Ok::<Datum, Fault>(
                            dml::cell_named(cs, after, n),
                        )
                    }
            }
        }),
    decreases assigns,
{
    if let Assigns::Cons(n, e, rest) = assigns {
        let c = catalog::column_named(cs, n)->Some_0;
        let g = dml::given_value(cx, env, c, *e, ds)->Ok_0;
        let v = dml::stored_value(cx.symbols, c, g.value)->Ok_0;
        let inner = dml::assigned(cx, env, cs, *rest, row, g.left)->Ok_0.row;
        law_assigned(cx, env, cs, *rest, row, g.left, k - 1, other);
        meaning::law_assignment(cs, inner, n, v, other);
        assert(assigned_at(assigns, 0) == n);
        assert(is_given(cx, env, c, *e, g.value));
        if !assigned_before(assigns, assigns_len(assigns) as int, other) {
            assert(other != n);
            if assigned_before(*rest, assigns_len(*rest) as int, other) {
                let j = choose|j: int|
                    0 <= j < assigns_len(*rest) && #[trigger] assigned_at(*rest, j) == other;
                assert(assigned_at(assigns, j + 1) == other);
            }
        }
        if k == 0 {
            lemma_with_named_cell(cs, inner, n, v);
        }
        if 0 < k < assigns_len(assigns) && !assigned_before(
            assigns,
            k,
            assigned_at(assigns, k),
        ) {
            let m = assigned_at(assigns, k);
            assert(m == assigned_at(*rest, k - 1));
            assert(source_at(assigns, k) == source_at(*rest, k - 1));
            assert(m != n);
            if assigned_before(*rest, k - 1, m) {
                let j = choose|j: int| 0 <= j < k - 1 && #[trigger] assigned_at(*rest, j) == m;
                assert(assigned_at(assigns, j + 1) == m);
            }
            meaning::law_assignment(cs, inner, n, v, m);
        }
    }
}

proof fn lemma_update_count(
    cx: CxModel,
    fs: Fields,
    cs: Columns,
    assigns: Assigns,
    filter: Expr,
    rows: Seq<Tuple>,
    i: int,
    acc: Changed,
)
    requires
        0 <= i <= rows.len() <= u64::MAX,
        acc.count == rows.take(i).filter(meaning::condition(cx, Env::Empty, fs, filter)).len(),
    ensures
        dml::updated_from(cx, fs, cs, assigns, filter, rows, i, acc) matches Ok(c) ==> c.count
            == rows.filter(meaning::condition(cx, Env::Empty, fs, filter)).len(),
    decreases rows.len() - i,
{
    reveal(Seq::filter);
    let p = meaning::condition(cx, Env::Empty, fs, filter);
    if i < rows.len() {
        let next = rows.take(i + 1);
        let here = Env::Frame(&fs, &rows[i], &Env::Empty);
        assert(next.drop_last() =~= rows.take(i));
        assert(next.last() == rows[i]);
        rows.take(i).lemma_filter_len(p);
        if let Ok(d) = eval::expr_value(cx, here, None, filter) {
            assert(p(rows[i]) == datum::holds(d));
            if datum::holds(d) {
                if let Ok(c) = dml::assigned(cx, here, cs, assigns, rows[i], acc.left) {
                    let more = Changed {
                        rows: acc.rows.push(c.row),
                        count: dml::next_count(acc.count),
                        left: c.left,
                    };
                    assert(more.count == next.filter(p).len());
                    lemma_update_count(cx, fs, cs, assigns, filter, rows, i + 1, more);
                }
            } else {
                let more = Changed {
                    rows: acc.rows.push(rows[i]),
                    count: acc.count,
                    left: acc.left,
                };
                lemma_update_count(cx, fs, cs, assigns, filter, rows, i + 1, more);
            }
        }
    } else {
        assert(rows.take(i) =~= rows);
    }
}

/// UPDATE counts the rows of which its condition is true.
pub proof fn law_update_count(cx: CxModel, t: TableModel, assigns: Assigns, filter: Expr)
    requires
        t.rows.len() <= u64::MAX,
    ensures
        dml::updated(cx, t, assigns, filter) matches Ok(c) ==> c.count == t.rows.filter(
            meaning::condition(
                cx,
                Env::Empty,
                fields::table_fields(t.columns, t.name),
                filter,
            ),
        ).len(),
{
    reveal(Seq::filter);
    assert(t.rows.take(0) =~= Seq::<Tuple>::empty());
    lemma_update_count(
        cx,
        fields::table_fields(t.columns, t.name),
        t.columns,
        assigns,
        filter,
        t.rows,
        0,
        Changed { rows: Seq::empty(), count: 0, left: cx.db.draws },
    );
}

/// Whether two rows have the same value, which is not null, in the unique column at place
/// `k`, and that is the column in which rows may agree, if one is named.
pub open spec fn agrees_in(cs: Columns, some: Columns, name: Option<usize>, a: Tuple, b: Tuple, k: int) -> bool {
    &&& 0 <= k < catalog::columns_len(some)
    &&& column_at(some, k) matches Some(c) && {
        &&& c.unique
        &&& name is None || name == Some(c.name)
        &&& dml::cell_named(cs, a, c.name) != Datum::Null
        &&& dml::cell_named(cs, a, c.name) == dml::cell_named(cs, b, c.name)
    }
}

/// Rows agree if they have the same value, and no null, in one of the unique columns in which
/// they may agree.
pub proof fn law_agree(cs: Columns, some: Columns, name: Option<usize>, a: Tuple, b: Tuple)
    ensures
        upsert::agree(cs, some, name, a, b) <==> exists|k: int|
            #[trigger] agrees_in(cs, some, name, a, b, k),
    decreases some,
{
    if let Columns::Cons(c, rest) = some {
        law_agree(cs, *rest, name, a, b);
        assert forall|k: int| 1 <= k implies #[trigger] agrees_in(cs, some, name, a, b, k)
            == agrees_in(cs, *rest, name, a, b, k - 1) by {}
        if exists|k: int| #[trigger] agrees_in(cs, *rest, name, a, b, k) {
            let k = choose|k: int| #[trigger] agrees_in(cs, *rest, name, a, b, k);
            assert(agrees_in(cs, some, name, a, b, k + 1));
        }
        if exists|k: int| #[trigger] agrees_in(cs, some, name, a, b, k) {
            let k = choose|k: int| #[trigger] agrees_in(cs, some, name, a, b, k);
            if k > 0 {
                assert(agrees_in(cs, *rest, name, a, b, k - 1));
            }
        } else {
            assert(!agrees_in(cs, some, name, a, b, 0));
        }
    }
}

proof fn lemma_agreeing(
    cs: Columns,
    name: Option<usize>,
    rows: Seq<Tuple>,
    x: Tuple,
    from: int,
)
    requires
        0 <= from,
    ensures
        match upsert::agreeing(cs, name, rows, x, from) {
            Some(j) => {
                &&& from <= j < rows.len()
                &&& upsert::agree(cs, cs, name, rows[j], x)
                &&& forall|i: int| from <= i < j ==> !upsert::agree(cs, cs, name, #[trigger] rows[i], x)
            },
            None => forall|i: int|
                from <= i < rows.len() ==> !upsert::agree(cs, cs, name, #[trigger] rows[i], x),
        },
    decreases rows.len() - from,
{
    if from < rows.len() && !upsert::agree(cs, cs, name, rows[from], x) {
        lemma_agreeing(cs, name, rows, x, from + 1);
    }
}

/// A row that is to be added and agrees with none is added behind the others. One that agrees
/// with a row is left out by DO NOTHING. DO UPDATE changes the first row that it agrees with
/// as its assignments say, if its condition is true, and leaves all other rows.
pub proof fn law_upsert_one(
    cx: CxModel,
    t: TableModel,
    action: Conflict,
    x: Tuple,
    left: Draws,
    j: int,
)
    ensures
        ({
            let name = upsert::named_column(action);
            let r = upsert::placed_from(cx, t, action, seq![x], 0, upsert::unchanged(t, left));
            &&& (forall|i: int|
                0 <= i < t.rows.len() ==> !upsert::agree(
                    t.columns,
                    t.columns,
                    name,
                    #[trigger] t.rows[i],
                    x,
                )) && r is Ok ==> r->Ok_0.rows == t.rows.push(x) && r->Ok_0.touched == seq![x]
            &&& 0 <= j < t.rows.len() && upsert::agree(
                t.columns,
                t.columns,
                name,
                t.rows[j],
                x,
            ) && (forall|i: int|
                0 <= i < j ==> !upsert::agree(
                    t.columns,
                    t.columns,
                    name,
                    #[trigger] t.rows[i],
                    x,
                )) ==> match action {
                Conflict::Nothing(_) => r matches Ok(u) && u.rows == t.rows && u.touched.len() == 0,
                Conflict::Update(_, assigns, filter) => {
                    let fs = fields::table_fields(t.columns, t.name);
                    let ex = fields::requalified(fs, symbols::EXCLUDED);
                    let outer = Env::Frame(&ex, &x, &Env::Empty);
                    let here = Env::Frame(&fs, &t.rows[j], &outer);
                    r matches Ok(u) ==> {
                        &&& conditions::is_worth(cx, here, None, *filter, Datum::Bool(true)) ==> {
                            &&& dml::assigned(
                                cx,
                                here,
                                t.columns,
                                *assigns,
                                t.rows[j],
                                left,
                            ) matches Ok(c) && u.rows == t.rows.update(j, c.row) && u.touched
                                == seq![c.row]
                        }
                        &&& !conditions::is_worth(cx, here, None, *filter, Datum::Bool(true)) ==> u.rows
                            == t.rows && u.touched.len() == 0
                    }
                },
            }
        }),
{
    let name = upsert::named_column(action);
    let start = upsert::unchanged(t, left);
    reveal_with_fuel(upsert::placed_from, 2);
    lemma_agreeing(t.columns, name, t.rows, x, 0);
    assert(Seq::<Tuple>::empty().push(x) =~= seq![x]);
    if 0 <= j < t.rows.len() && upsert::agree(t.columns, t.columns, name, t.rows[j], x) && (
    forall|i: int|
        0 <= i < j ==> !upsert::agree(t.columns, t.columns, name, #[trigger] t.rows[i], x)) {
        assert(upsert::agreeing(t.columns, name, t.rows, x, 0) == Some(j));
        if let Conflict::Update(_, assigns, filter) = action {
            let fs = fields::table_fields(t.columns, t.name);
            let ex = fields::requalified(fs, symbols::EXCLUDED);
            let outer = Env::Frame(&ex, &x, &Env::Empty);
            let here = Env::Frame(&fs, &t.rows[j], &outer);
            if let Ok(c) = dml::assigned(cx, here, t.columns, *assigns, t.rows[j], left) {
                assert(Seq::<Tuple>::empty().push(c.row) =~= seq![c.row]);
            }
        }
    }
}

/// Rows that are to be added are taken one after the other.
pub proof fn law_upsert_in_turn(
    cx: CxModel,
    t: TableModel,
    action: Conflict,
    more: Seq<Tuple>,
    i: int,
    acc: Upserted,
)
    requires
        0 <= i < more.len(),
    ensures
        upsert::placed_from(cx, t, action, more, i, acc) == match upsert::placed_from(
            cx,
            t,
            action,
            seq![more[i]],
            0,
            acc,
        ) {
            Err(f) => Err::<Upserted, Fault>(f),
            Ok(next) => upsert::placed_from(cx, t, action, more, i + 1, next),
        },
{
    reveal_with_fuel(upsert::placed_from, 2);
}

/// What RETURNING speaks of: the rows that an insertion adds, the rows that a deletion takes
/// away as they were, the rows that an update changes as they are afterwards.
pub proof fn law_returned_rows(cx: CxModel, t: TableModel, s: Stmt)
    ensures
        s matches Stmt::Insert(_, names, feed) ==> match dml::inserted(cx, t, *names, *feed) {
            Ok(f) => returning::touched(cx, t, s) == Ok::<Seq<Tuple>, Fault>(
                f.rows.skip(t.rows.len() as int),
            ),
            Err(f) => returning::touched(cx, t, s) == Err::<Seq<Tuple>, Fault>(f),
        },
        s matches Stmt::Delete(_, filter) ==> (returning::touched(cx, t, s) matches Ok(rows) ==> rows
            == t.rows.filter(
            meaning::condition(
                cx,
                Env::Empty,
                fields::table_fields(t.columns, t.name),
                *filter,
            ),
        )),
        s matches Stmt::Update(_, assigns, filter) ==> (returning::touched(
            cx,
            t,
            s,
        ) matches Ok(rows) ==> {
            let fs = fields::table_fields(t.columns, t.name);
            let hit = t.rows.filter(meaning::condition(cx, Env::Empty, fs, *filter));
            &&& rows.len() == hit.len()
            &&& forall|k: int|
                0 <= k < rows.len() ==> meaning::is_update_of(
                    cx,
                    fs,
                    t.columns,
                    *assigns,
                    *filter,
                    hit[k],
                    #[trigger] rows[k],
                )
        }),
        s matches Stmt::Upsert(_, names, feed, action) ==> match upsert::upserted(
            cx,
            t,
            *names,
            *feed,
            *action,
        ) {
            Ok(u) => returning::touched(cx, t, s) == Ok::<Seq<Tuple>, Fault>(u.touched),
            Err(f) => returning::touched(cx, t, s) == Err::<Seq<Tuple>, Fault>(f),
        },
{
    let fs = fields::table_fields(t.columns, t.name);
    if let Stmt::Delete(_, filter) = s {
        meaning::law_where(cx, Env::Empty, fs, *filter, t.rows);
    }
    if let Stmt::Update(_, assigns, filter) = s {
        reveal(Seq::filter);
        assert(t.rows.take(0) =~= Seq::empty());
        lemma_replaced(cx, t, *assigns, *filter, 0, dml::no_rows(cx));
    }
}

proof fn lemma_replaced(
    cx: CxModel,
    t: TableModel,
    assigns: Assigns,
    filter: Expr,
    i: int,
    acc: Fed,
)
    requires
        0 <= i <= t.rows.len(),
        ({
            let fs = fields::table_fields(t.columns, t.name);
            let hit = t.rows.take(i).filter(meaning::condition(cx, Env::Empty, fs, filter));
            &&& acc.rows.len() == hit.len()
            &&& forall|k: int|
                0 <= k < hit.len() ==> meaning::is_update_of(
                    cx,
                    fs,
                    t.columns,
                    assigns,
                    filter,
                    hit[k],
                    #[trigger] acc.rows[k],
                )
        }),
    ensures
        returning::replaced_from(cx, t, assigns, filter, i, acc) matches Ok(f) ==> {
            let fs = fields::table_fields(t.columns, t.name);
            let hit = t.rows.filter(meaning::condition(cx, Env::Empty, fs, filter));
            &&& f.rows.len() == hit.len()
            &&& forall|k: int|
                0 <= k < hit.len() ==> meaning::is_update_of(
                    cx,
                    fs,
                    t.columns,
                    assigns,
                    filter,
                    hit[k],
                    #[trigger] f.rows[k],
                )
        },
    decreases t.rows.len() - i,
{
    reveal(Seq::filter);
    let fs = fields::table_fields(t.columns, t.name);
    let p = meaning::condition(cx, Env::Empty, fs, filter);
    if i < t.rows.len() {
        let next = t.rows.take(i + 1);
        let here = Env::Frame(&fs, &t.rows[i], &Env::Empty);
        assert(next.drop_last() =~= t.rows.take(i));
        assert(next.last() == t.rows[i]);
        let hit = t.rows.take(i).filter(p);
        if let Ok(d) = eval::expr_value(cx, here, None, filter) {
            assert(p(t.rows[i]) == datum::holds(d));
            if datum::holds(d) {
                assert(next.filter(p) == hit.push(t.rows[i]));
                if let Ok(c) = dml::assigned(cx, here, t.columns, assigns, t.rows[i], acc.left) {
                    let more = Fed { rows: acc.rows.push(c.row), left: c.left };
                    assert(meaning::is_update_of(
                        cx,
                        fs,
                        t.columns,
                        assigns,
                        filter,
                        t.rows[i],
                        c.row,
                    ));
                    assert forall|k: int| 0 <= k < next.filter(p).len() implies meaning::is_update_of(
                        cx,
                        fs,
                        t.columns,
                        assigns,
                        filter,
                        next.filter(p)[k],
                        #[trigger] more.rows[k],
                    ) by {
                        if k < hit.len() {
                            assert(more.rows[k] == acc.rows[k]);
                        }
                    }
                    lemma_replaced(cx, t, assigns, filter, i + 1, more);
                }
            } else {
                lemma_replaced(cx, t, assigns, filter, i + 1, acc);
            }
        }
    } else {
        assert(t.rows.take(i) =~= t.rows);
    }
}

/// RETURNING gives back one row for each of the rows that it speaks of, in their order, with
/// the cells of its select list for that row.
pub proof fn law_given_back(
    cx: CxModel,
    fs: Fields,
    items: Items,
    rows: Seq<Tuple>,
    i: int,
    acc: Seq<Tuple>,
)
    requires
        0 <= i <= rows.len(),
        acc.len() == i,
        forall|k: int|
            0 <= k < i ==> eval::items_value(
                cx,
                Env::Frame(&fs, &rows[k], &Env::Empty),
                None,
                items,
            ) == Ok::<Tuple, Fault>(#[trigger] acc[k]),
    ensures
        returning::given_from(cx, fs, items, rows, i, acc) matches Ok(out) ==> {
            &&& out.len() == rows.len()
            &&& forall|k: int|
                0 <= k < rows.len() ==> eval::items_value(
                    cx,
                    Env::Frame(&fs, &rows[k], &Env::Empty),
                    None,
                    items,
                ) == Ok::<Tuple, Fault>(#[trigger] out[k])
        },
    decreases rows.len() - i,
{
    if i < rows.len() {
        let here = Env::Frame(&fs, &rows[i], &Env::Empty);
        if let Ok(row) = eval::items_value(cx, here, None, items) {
            law_given_back(cx, fs, items, rows, i + 1, acc.push(row));
        }
    }
}

/// A statement with RETURNING gives back what its select list makes of the rows that it
/// speaks of, all seen against the database before it.
pub proof fn law_returning(cx: CxModel, s: Box<Stmt>, items: Box<Items>, k: int)
    requires
        returning::returned(cx, Stmt::Returning(s, items)) is Ok,
        returning::table_of(cx, *s) is Some,
    ensures
        ({
            let t = cx.db.tables[returning::table_of(cx, *s)->Some_0 as int];
            let fs = fields::table_fields(t.columns, t.name);
            returning::returned(cx, Stmt::Returning(s, items))->Ok_0 matches Some((_, out))
                && returning::touched(cx, t, *s) matches Ok(rows) && out.len() == rows.len() && (0
                <= k < rows.len() ==> eval::items_value(
                cx,
                Env::Frame(&fs, &rows[k], &Env::Empty),
                None,
                *items,
            ) == Ok::<Tuple, Fault>(out[k]))
        }),
{
    let t = cx.db.tables[returning::table_of(cx, *s)->Some_0 as int];
    let fs = fields::table_fields(t.columns, t.name);
    let rows = returning::touched(cx, t, *s)->Ok_0;
    law_given_back(cx, fs, *items, rows, 0, Seq::empty());
}

} // verus!
