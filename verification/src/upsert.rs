//! Insertions that say what becomes of a row that agrees with one that is there.

use vstd::prelude::*;
use crate::analyze;
use crate::analyze::Cx;
use crate::analyze::CxModel;
use crate::analyze::Ty;
use crate::ast::Columns;
use crate::ast::Conflict;
use crate::ast::Feed;
use crate::ast::Idents;
use crate::catalog;
use crate::catalog::Draws;
use crate::catalog::Table;
use crate::catalog::TableModel;
use crate::datum;
use crate::datum::Datum;
use crate::datum::Tuple;
use crate::dml;
use crate::dml::Cells;
use crate::dml::Fed;
use crate::eval;
use crate::fault::Fault;
use crate::fields;
use crate::fields::Env;
use crate::fields::Fields;
use crate::relation;
use crate::symbols;

verus! {

/// The rows of a table, the rows that were added or changed, as they are now, the
/// places of those, and what is left of sequences.
pub struct Upserted {
    pub rows: Seq<Tuple>,
    pub touched: Seq<Tuple>,
    pub places: Seq<int>,
    pub left: Draws,
}

/// Whether two rows agree in one of the columns `some` that are unique, or in the one
/// among them with the given name. Nulls do not agree. `cs` are all columns.
pub open spec fn agree(cs: Columns, some: Columns, name: Option<usize>, a: Tuple, b: Tuple) -> bool
    decreases some,
{
    match some {
        Columns::Nil => false,
        Columns::Cons(c, rest) => {
            let d = dml::cell_named(cs, a, c.name);
            ||| c.unique && (name is None || name == Some(c.name)) && d != Datum::Null && d
                == dml::cell_named(cs, b, c.name)
            ||| agree(cs, *rest, name, a, b)
        },
    }
}

fn rows_agree(cs: &Columns, some: &Columns, name: Option<usize>, a: &Tuple, b: &Tuple) -> (r: bool)
    ensures
        r == agree(*cs, *some, name, *a, *b),
    decreases some,
{
    match some {
        Columns::Nil => false,
        Columns::Cons(c, rest) => {
            let d: Datum = dml::write_cell_named(cs, a, c.name);
            let meant: bool = match name {
                None => true,
                Some(n) => n == c.name,
            };
            if c.unique && meant && d != Datum::Null && d == dml::write_cell_named(cs, b, c.name) {
                true
            } else {
                rows_agree(cs, rest, name, a, b)
            }
        },
    }
}

/// The first place at or after `from` of a row that agrees with `x`.
pub open spec fn agreeing(
    cs: Columns,
    name: Option<usize>,
    rows: Seq<Tuple>,
    x: Tuple,
    from: int,
) -> Option<int>
    decreases rows.len() - from,
{
    if from < 0 || from >= rows.len() {
        None
    } else if agree(cs, cs, name, rows[from], x) {
        Some(from)
    } else {
        agreeing(cs, name, rows, x, from + 1)
    }
}

fn find_agreeing(cs: &Columns, name: Option<usize>, rows: &Vec<Tuple>, x: &Tuple) -> (r: Option<
    usize,
>)
    ensures
        match r {
            Some(i) => i < rows.len() && agreeing(*cs, name, rows@, *x, 0) == Some(i as int),
            None => agreeing(*cs, name, rows@, *x, 0) is None,
        },
{
    let mut i: usize = 0;
    while i < rows.len()
        invariant
            i <= rows.len(),
            agreeing(*cs, name, rows@, *x, 0) == agreeing(*cs, name, rows@, *x, i as int),
        decreases rows.len() - i,
    {
        if rows_agree(cs, cs, name, &rows[i], x) {
            return Some(i);
        }
        i += 1;
    }
    None
}

/// The column in which rows may agree, if one is named.
pub open spec fn named_column(action: Conflict) -> Option<usize> {
    match action {
        Conflict::Nothing(name) => name,
        Conflict::Update(name, _, _) => Some(name),
    }
}

fn column_of(action: &Conflict) -> (r: Option<usize>)
    ensures
        r == named_column(*action),
{
    match action {
        Conflict::Nothing(name) => *name,
        Conflict::Update(name, _, _) => Some(*name),
    }
}

/// What becomes of the rows when `x` is to be added and the row at place `j` agrees
/// with it. The row that was to be added is known by the name `excluded`. A row that was
/// added or changed by the same statement is not changed.
pub open spec fn resolved(
    cx: CxModel,
    t: TableModel,
    action: Conflict,
    acc: Upserted,
    x: Tuple,
    j: int,
) -> Result<Upserted, Fault> {
    match action {
        Conflict::Nothing(_) => Ok(acc),
        Conflict::Update(_, assigns, filter) => {
            let fs = fields::table_fields(t.columns, t.name);
            let ex = fields::requalified(fs, symbols::EXCLUDED);
            let outer = Env::Frame(&ex, &x, &Env::Empty);
            let here = Env::Frame(&fs, &acc.rows[j], &outer);
            if acc.places.contains(j) {
                Err(Fault::ChangedTwice)
            } else {
                match eval::expr_value(cx, here, None, *filter) {
                    Err(f) => Err(f),
                    Ok(d) => if datum::holds(d) {
                        match dml::assigned(
                            cx,
                            here,
                            t.columns,
                            *assigns,
                            acc.rows[j],
                            acc.left,
                        ) {
                            Err(f) => Err(f),
                            Ok(y) => match dml::clash(
                                t.columns,
                                t.columns,
                                acc.rows.remove(j),
                                y.row,
                            ) {
                                Some(name) => Err(Fault::UniqueViolation { name }),
                                None => Ok(
                                    Upserted {
                                        rows: acc.rows.update(j, y.row),
                                        touched: acc.touched.push(y.row),
                                        places: acc.places.push(j),
                                        left: y.left,
                                    },
                                ),
                            },
                        }
                    } else {
                        Ok(acc)
                    },
                }
            }
        },
    }
}

/// What becomes of the rows when those of `more` from place `i` on are added one by
/// one.
pub open spec fn placed_from(
    cx: CxModel,
    t: TableModel,
    action: Conflict,
    more: Seq<Tuple>,
    i: int,
    acc: Upserted,
) -> Result<Upserted, Fault>
    decreases more.len() - i,
{
    if i < 0 || i >= more.len() {
        Ok(acc)
    } else {
        match agreeing(t.columns, named_column(action), acc.rows, more[i], 0) {
            Some(j) => match resolved(cx, t, action, acc, more[i], j) {
                Err(f) => Err(f),
                Ok(next) => placed_from(cx, t, action, more, i + 1, next),
            },
            None => match dml::clash(t.columns, t.columns, acc.rows, more[i]) {
                Some(name) => Err(Fault::UniqueViolation { name }),
                None => placed_from(
                    cx,
                    t,
                    action,
                    more,
                    i + 1,
                    Upserted {
                        rows: acc.rows.push(more[i]),
                        touched: acc.touched.push(more[i]),
                        places: acc.places.push(acc.rows.len() as int),
                        left: acc.left,
                    },
                ),
            },
        }
    }
}

/// Whether all that the action refers to is there: a column in which rows may agree has
/// to be unique.
pub open spec fn action_ok(cx: CxModel, t: TableModel, action: Conflict) -> Result<(), Fault> {
    let fs = fields::table_fields(t.columns, t.name);
    let ex = fields::requalified(fs, symbols::EXCLUDED);
    let outer = Env::Frame(&ex, &Tuple::Nil, &Env::Empty);
    let here = Env::Frame(&fs, &Tuple::Nil, &outer);
    match column_fault(t.columns, named_column(action)) {
        Some(f) => Err(f),
        None => match action {
            Conflict::Nothing(_) => Ok(()),
            Conflict::Update(_, assigns, filter) => match analyze::condition_type(
                cx,
                here,
                false,
                *filter,
            ) {
                Err(f) => Err(f),
                Ok(_) => dml::assigns_ok(cx, here, t.columns, *assigns),
            },
        },
    }
}

/// What is wrong with a column in which rows may agree.
pub open spec fn column_fault(cs: Columns, name: Option<usize>) -> Option<Fault> {
    match name {
        None => None,
        Some(n) => match catalog::column_named(cs, n) {
            None => Some(Fault::UndefinedColumn { table: None, name: n }),
            Some(c) => if c.unique {
                None
            } else {
                Some(Fault::ConflictTarget { name: n })
            },
        },
    }
}

fn find_column_fault(cs: &Columns, name: Option<usize>) -> (r: Option<Fault>)
    ensures
        r == column_fault(*cs, name),
{
    match name {
        None => None,
        Some(n) => match cs.named(n) {
            None => Some(Fault::UndefinedColumn { table: None, name: n }),
            Some(c) => if c.unique {
                None
            } else {
                Some(Fault::ConflictTarget { name: n })
            },
        },
    }
}

fn check_action(cx: &Cx, t: &Table, action: &Conflict) -> (r: Result<(), Fault>)
    ensures
        r == action_ok(cx@, t@, *action),
{
    match find_column_fault(&t.columns, column_of(action)) {
        Some(f) => Err(f),
        None => match action {
            Conflict::Nothing(_) => Ok(()),
            Conflict::Update(_, assigns, filter) => {
                let fs: Fields = Fields::of_table(&t.columns, t.name);
                let ex: Fields = fs.under(symbols::EXCLUDED);
                let outer: Env = Env::Frame(&ex, &Tuple::Nil, &Env::Empty);
                let here: Env = Env::Frame(&fs, &Tuple::Nil, &outer);
                let _: Ty = analyze::infer_condition_type(cx, &here, false, filter)?;
                dml::write_assigns_ok(cx, &here, &t.columns, assigns)
            },
        },
    }
}

/// The rows of a table after an insertion that says what becomes of rows that agree.
pub open spec fn upserted(
    cx: CxModel,
    t: TableModel,
    names: Idents,
    feed: Feed,
    action: Conflict,
) -> Result<Upserted, Fault> {
    match dml::target_columns(t.columns, names) {
        Err(f) => Err(f),
        Ok(ts) => match action_ok(cx, t, action) {
            Err(f) => Err(f),
            Ok(_) => match dml::feed_cells(cx, ts, names is Nil, feed) {
                Err(f) => Err(f),
                Ok(cells) => match dml::complete_rows(
                    cx,
                    t.columns,
                    ts,
                    cells.rows,
                    0,
                    Fed { rows: Seq::empty(), left: cells.left },
                ) {
                    Err(f) => Err(f),
                    Ok(more) => placed_from(
                        cx,
                        t,
                        action,
                        more.rows,
                        0,
                        unchanged(t, more.left),
                    ),
                },
            },
        },
    }
}

/// A table of which nothing was touched.
pub open spec fn unchanged(t: TableModel, left: Draws) -> Upserted {
    Upserted { rows: t.rows, touched: Seq::empty(), places: Seq::empty(), left }
}

fn place_in(places: &Vec<usize>, j: usize) -> (r: bool)
    ensures
        r == places_view(places@).contains(j as int),
{
    let mut i: usize = 0;
    while i < places.len()
        invariant
            i <= places.len(),
            forall|k: int| 0 <= k < i ==> places@[k] != j,
        decreases places.len() - i,
    {
        if places[i] == j {
            assert(places_view(places@)[i as int] == j as int);
            return true;
        }
        i += 1;
    }
    assert forall|k: int| 0 <= k < places@.len() implies places_view(places@)[k] != j as int by {
        assert(places@[k] != j);
    }
    false
}

pub open spec fn places_view(v: Seq<usize>) -> Seq<int> {
    v.map_values(|j: usize| j as int)
}

/// Inserts rows into a table, as `upserted` says.
pub fn upsert(cx: &Cx, t: &Table, names: &Idents, feed: &Feed, action: &Conflict) -> (out: Result<
    (Vec<Tuple>, Vec<Tuple>, Draws),
    Fault,
>)
    ensures
        match (out, upserted(cx@, t@, *names, *feed, *action)) {
            (Ok((rows, touched, left)), Ok(u)) => rows@ == u.rows && touched@ == u.touched && left
                == u.left,
            (Err(f), Err(g)) => f == g,
            _ => false,
        },
{
    let ts: Columns = dml::write_target_columns(&t.columns, names)?;
    let _: () = check_action(cx, t, action)?;
    let (cells, kept): (Vec<Tuple>, Draws) = dml::write_feed_cells(
        cx,
        &ts,
        matches!(names, Idents::Nil),
        feed,
    )?;
    let (more, kept): (Vec<Tuple>, Draws) = dml::write_complete_rows(
        cx,
        &t.columns,
        &ts,
        &cells,
        kept,
    )?;
    let mut left: Draws = kept;
    let ghost goal = placed_from(cx@, t@, *action, more@, 0, unchanged(t@, left));
    let name: Option<usize> = column_of(action);
    let fs: Fields = Fields::of_table(&t.columns, t.name);
    let ex: Fields = fs.under(symbols::EXCLUDED);
    let mut rows: Vec<Tuple> = relation::copy_rows(&t.rows);
    let mut touched: Vec<Tuple> = Vec::new();
    let mut places: Vec<usize> = Vec::new();
    let mut i: usize = 0;
    assert(places_view(places@) =~= Seq::empty());
    while i < more.len()
        invariant
            i <= more.len(),
            name == named_column(*action),
            fs == fields::table_fields(t.columns, t.name),
            ex == fields::requalified(fs, symbols::EXCLUDED),
            goal == upserted(cx@, t@, *names, *feed, *action),
            goal == placed_from(
                cx@,
                t@,
                *action,
                more@,
                i as int,
                (Upserted { rows: rows@, touched: touched@, places: places_view(places@), left }),
            ),
        decreases more.len() - i,
    {
        let ghost acc = Upserted {
            rows: rows@,
            touched: touched@,
            places: places_view(places@),
            left,
        };
        match find_agreeing(&t.columns, name, &rows, &more[i]) {
            Some(j) => match action {
                Conflict::Nothing(_) => {},
                Conflict::Update(_, assigns, filter) => {
                    if place_in(&places, j) {
                        return Err(Fault::ChangedTwice);
                    }
                    let y: Option<Cells> = {
                        let outer: Env = Env::Frame(&ex, &more[i], &Env::Empty);
                        let here: Env = Env::Frame(&fs, &rows[j], &outer);
                        let d: Datum = eval::eval_expr_value(cx, &here, None, filter)?;
                        if d == Datum::Bool(true) {
                            Some(
                                dml::write_assigned(
                                    cx,
                                    &here,
                                    &t.columns,
                                    assigns,
                                    &rows[j],
                                    &left,
                                )?,
                            )
                        } else {
                            None
                        }
                    };
                    match y {
                        None => {},
                        Some(c) => {
                            let y: Tuple = c.row;
                            let _: Tuple = rows.remove(j);
                            match dml::find_clash(&t.columns, &t.columns, &rows, &y) {
                                Some(name) => {
                                    return Err(Fault::UniqueViolation { name });
                                },
                                None => {},
                            }
                            rows.insert(j, y.copy());
                            touched.push(y);
                            places.push(j);
                            left = c.left;
                            assert(rows@ =~= acc.rows.update(j as int, y));
                            assert(places_view(places@) =~= acc.places.push(j as int));
                        },
                    }
                },
            },
            None => {
                match dml::find_clash(&t.columns, &t.columns, &rows, &more[i]) {
                    Some(name) => {
                        return Err(Fault::UniqueViolation { name });
                    },
                    None => {},
                }
                places.push(rows.len());
                assert(places_view(places@) =~= acc.places.push(rows@.len() as int));
                rows.push(more[i].copy());
                touched.push(more[i].copy());
            },
        }
        i += 1;
    }
    Ok((rows, touched, left))
}

pub proof fn lemma_agreeing(cs: Columns, name: Option<usize>, rows: Seq<Tuple>, x: Tuple, from: int)
    requires
        0 <= from,
    ensures
        agreeing(cs, name, rows, x, from) matches Some(j) ==> from <= j < rows.len(),
    decreases rows.len() - from,
{
    if from < rows.len() && !agree(cs, cs, name, rows[from], x) {
        lemma_agreeing(cs, name, rows, x, from + 1);
    }
}

proof fn lemma_unique_update(cs: Columns, rows: Seq<Tuple>, j: int, y: Tuple)
    requires
        dml::all_unique(cs, rows),
        0 <= j < rows.len(),
        dml::clash(cs, cs, rows.remove(j), y) is None,
    ensures
        dml::all_unique(cs, rows.update(j, y)),
{
    let all = rows.update(j, y);
    let rest = rows.remove(j);
    assert forall|name: usize, a: int, b: int|
        #![trigger dml::cell_named(cs, all[a], name), dml::cell_named(cs, all[b], name)]
        0 <= a < b < all.len() && dml::is_unique(cs, name) && dml::cell_named(cs, all[b], name)
            != Datum::Null implies dml::cell_named(cs, all[a], name) != dml::cell_named(
        cs,
        all[b],
        name,
    ) by {
        if a == j || b == j {
            if dml::cell_named(cs, y, name) != Datum::Null {
                dml::lemma_no_clash(cs, cs, rest, y, name);
                let other = if a == j {
                    b - 1
                } else {
                    a
                };
                assert(rest[other] == if a == j {
                    rows[b]
                } else {
                    rows[a]
                });
                assert(dml::cell_named(cs, rest[other], name) != dml::cell_named(cs, y, name));
            }
        } else {
            assert(all[a] == rows[a] && all[b] == rows[b]);
        }
    }
}

/// The rows that come of it keep what the unique columns of the table promise, and none
/// goes.
pub proof fn law_upserted_unique(
    cx: CxModel,
    t: TableModel,
    action: Conflict,
    more: Seq<Tuple>,
    i: int,
    acc: Upserted,
)
    requires
        dml::all_unique(t.columns, acc.rows),
        0 <= i <= more.len(),
        placed_from(cx, t, action, more, i, acc) is Ok,
    ensures
        dml::all_unique(t.columns, placed_from(cx, t, action, more, i, acc)->Ok_0.rows),
        placed_from(cx, t, action, more, i, acc)->Ok_0.rows.len() >= acc.rows.len(),
    decreases more.len() - i,
{
    if i < more.len() {
        lemma_agreeing(t.columns, named_column(action), acc.rows, more[i], 0);
        match agreeing(t.columns, named_column(action), acc.rows, more[i], 0) {
            Some(j) => {
                let next = resolved(cx, t, action, acc, more[i], j)->Ok_0;
                if next.rows != acc.rows {
                    let y = next.touched.last();
                    lemma_unique_update(t.columns, acc.rows, j, y);
                }
                law_upserted_unique(cx, t, action, more, i + 1, next);
            },
            None => {
                dml::lemma_unique_push(t.columns, acc.rows, more[i]);
                law_upserted_unique(
                    cx,
                    t,
                    action,
                    more,
                    i + 1,
                    Upserted {
                        rows: acc.rows.push(more[i]),
                        touched: acc.touched.push(more[i]),
                        places: acc.places.push(acc.rows.len() as int),
                        left: acc.left,
                    },
                );
            },
        }
    }
}

} // verus!
