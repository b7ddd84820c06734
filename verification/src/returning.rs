//! What statements that change rows give back of them.

use vstd::prelude::*;
use crate::analyze;
use crate::analyze::Cx;
use crate::analyze::CxModel;
use crate::ast::Assigns;
use crate::ast::Expr;
use crate::ast::Items;
use crate::ast::Name;
use crate::ast::Stmt;
use crate::catalog;
use crate::catalog::Draws;
use crate::catalog::Table;
use crate::catalog::TableModel;
use crate::datum;
use crate::datum::Datum;
use crate::datum::Tuple;
use crate::dml;
use crate::dml::Cells;
use crate::dml::Fed;
use crate::dml::Outcome;
use crate::eval;
use crate::fault::Fault;
use crate::fields;
use crate::fields::Env;
use crate::fields::Fields;
use crate::upsert;

verus! {

/// The name of the table whose rows a statement changes.
pub open spec fn target(stmt: Stmt) -> Option<Name> {
    match stmt {
        Stmt::Insert(n, _, _) => Some(n),
        Stmt::Upsert(n, _, _, _) => Some(n),
        Stmt::Update(n, _, _) => Some(n),
        Stmt::Delete(n, _) => Some(n),
        _ => None,
    }
}

fn find_target(stmt: &Stmt) -> (r: Option<Name>)
    ensures
        r == target(*stmt),
{
    match stmt {
        Stmt::Insert(n, _, _) => Some(*n),
        Stmt::Upsert(n, _, _, _) => Some(*n),
        Stmt::Update(n, _, _) => Some(*n),
        Stmt::Delete(n, _) => Some(*n),
        _ => None,
    }
}

/// The place of the table whose rows a statement changes.
pub open spec fn table_of(cx: CxModel, stmt: Stmt) -> Option<usize> {
    match target(stmt) {
        None => None,
        Some(n) => catalog::resolved(cx.db.tables, cx.path, n),
    }
}

/// Finds the place of the table whose rows a statement changes.
pub fn find_table(cx: &Cx, stmt: &Stmt) -> (r: Option<usize>)
    ensures
        r == table_of(cx@, *stmt),
        r matches Some(i) ==> i < cx.db.tables.len(),
{
    match find_target(stmt) {
        None => None,
        Some(n) => cx.db.resolve(cx.path, n),
    }
}

/// The columns that a statement gives back. Whoever asks for rows of a table has to
/// be allowed to read it.
pub open spec fn columns(cx: CxModel, stmt: Stmt, items: Items) -> Result<Fields, Fault> {
    match (target(stmt), table_of(cx, stmt)) {
        (Some(n), Some(i)) => {
            let t = cx.db.tables[i as int];
            let fs = fields::table_fields(t.columns, t.name);
            if !catalog::allowed(cx.db, cx.user, t, catalog::reading()) {
                Err(Fault::Denied { name: n.name })
            } else if analyze::items_aggregate(items) {
                Err(Fault::MisplacedAggregate)
            } else if analyze::items_window(items) {
                Err(Fault::MisplacedWindow)
            } else {
                analyze::items_fields(cx, Env::Frame(&fs, &Tuple::Nil, &Env::Empty), fs, items)
            }
        },
        (Some(n), None) => Err(Fault::UndefinedTable { schema: n.schema, name: n.name }),
        (None, _) => Ok(Fields::Nil),
    }
}

/// Finds the columns that a statement gives back.
pub fn find_columns(cx: &Cx, stmt: &Stmt, items: &Items) -> (r: Result<Fields, Fault>)
    ensures
        r == columns(cx@, *stmt, *items),
{
    match (find_target(stmt), find_table(cx, stmt)) {
        (Some(n), Some(i)) => {
            let t: &Table = &cx.db.tables[i];
            assert(cx@.db.tables[i as int] == t@);
            let fs: Fields = Fields::of_table(&t.columns, t.name);
            if !cx.db.allows(cx.user, i, catalog::to_read()) {
                Err(Fault::Denied { name: n.name })
            } else if analyze::infer_items_aggregate(items) {
                Err(Fault::MisplacedAggregate)
            } else if analyze::infer_items_window(items) {
                Err(Fault::MisplacedWindow)
            } else {
                analyze::infer_items_fields(
                    cx,
                    &Env::Frame(&fs, &Tuple::Nil, &Env::Empty),
                    &fs,
                    items,
                )
            }
        },
        (Some(n), None) => Err(Fault::UndefinedTable { schema: n.schema, name: n.name }),
        (None, _) => Ok(Fields::Nil),
    }
}

/// The columns of a select list that draws from sequences.
pub open spec fn drawn_columns(cx: CxModel, items: Items) -> Result<Fields, Fault> {
    if analyze::items_aggregate(items) {
        Err(Fault::MisplacedAggregate)
    } else if analyze::items_window(items) {
        Err(Fault::MisplacedWindow)
    } else {
        analyze::items_fields(cx, Env::Empty, Fields::Nil, items)
    }
}

/// Finds the columns of a select list that draws from sequences.
pub fn find_drawn_columns(cx: &Cx, items: &Items) -> (r: Result<Fields, Fault>)
    ensures
        r == drawn_columns(cx@, *items),
{
    if analyze::infer_items_aggregate(items) {
        Err(Fault::MisplacedAggregate)
    } else if analyze::infer_items_window(items) {
        Err(Fault::MisplacedWindow)
    } else {
        analyze::infer_items_fields(cx, &Env::Empty, &Fields::Nil, items)
    }
}

/// The columns that any statement gives back; none if it gives no rows back.
pub open spec fn all_columns(cx: CxModel, stmt: Stmt) -> Result<Fields, Fault> {
    match stmt {
        Stmt::Returning(s, items) => columns(cx, *s, *items),
        Stmt::Draw(items) => drawn_columns(cx, *items),
        _ => Ok(Fields::Nil),
    }
}

/// Finds the columns that any statement gives back.
pub fn find_all_columns(cx: &Cx, stmt: &Stmt) -> (r: Result<Fields, Fault>)
    ensures
        r == all_columns(cx@, *stmt),
{
    match stmt {
        Stmt::Returning(s, items) => find_columns(cx, s, items),
        Stmt::Draw(items) => find_drawn_columns(cx, items),
        _ => Ok(Fields::Nil),
    }
}

/// The new form of the rows from place `i` on that an update changes, behind `acc`.
pub open spec fn replaced_from(
    cx: CxModel,
    t: TableModel,
    assigns: Assigns,
    filter: Expr,
    i: int,
    acc: Fed,
) -> Result<Fed, Fault>
    decreases t.rows.len() - i,
{
    let fs = fields::table_fields(t.columns, t.name);
    if i < 0 || i >= t.rows.len() {
        Ok(acc)
    } else {
        let here = Env::Frame(&fs, &t.rows[i], &Env::Empty);
        match eval::expr_value(cx, here, None, filter) {
            Err(f) => Err(f),
            Ok(d) => if datum::holds(d) {
                match dml::assigned(cx, here, t.columns, assigns, t.rows[i], acc.left) {
                    Err(f) => Err(f),
                    Ok(c) => replaced_from(
                        cx,
                        t,
                        assigns,
                        filter,
                        i + 1,
                        Fed { rows: acc.rows.push(c.row), left: c.left },
                    ),
                }
            } else {
                replaced_from(cx, t, assigns, filter, i + 1, acc)
            },
        }
    }
}

fn find_replaced(cx: &Cx, t: &Table, assigns: &Assigns, filter: &Expr) -> (out: Result<
    (Vec<Tuple>, Draws),
    Fault,
>)
    ensures
        dml::fed_is(out, replaced_from(cx@, t@, *assigns, *filter, 0, dml::no_rows(cx@))),
{
    let ghost goal = replaced_from(cx@, t@, *assigns, *filter, 0, dml::no_rows(cx@));
    let fs: Fields = Fields::of_table(&t.columns, t.name);
    let mut acc: Vec<Tuple> = Vec::new();
    let mut left: Draws = cx.db.draws.copy();
    let mut i: usize = 0;
    while i < t.rows.len()
        invariant
            i <= t.rows.len(),
            fs == fields::table_fields(t.columns, t.name),
            goal == replaced_from(cx@, t@, *assigns, *filter, 0, dml::no_rows(cx@)),
            goal == replaced_from(
                cx@,
                t@,
                *assigns,
                *filter,
                i as int,
                (Fed { rows: acc@, left }),
            ),
        decreases t.rows.len() - i,
    {
        let here: Env = Env::Frame(&fs, &t.rows[i], &Env::Empty);
        let d: Datum = eval::eval_expr_value(cx, &here, None, filter)?;
        if d == Datum::Bool(true) {
            let c: Cells = dml::write_assigned(
                cx,
                &here,
                &t.columns,
                assigns,
                &t.rows[i],
                &left,
            )?;
            acc.push(c.row);
            left = c.left;
        }
        i += 1;
    }
    Ok((acc, left))
}

/// The rows that a statement adds, changes or removes: as they are after it or, if it
/// removes them, as they were.
pub open spec fn touched(cx: CxModel, t: TableModel, stmt: Stmt) -> Result<Seq<Tuple>, Fault> {
    match stmt {
        Stmt::Insert(_, names, feed) => match dml::inserted(cx, t, *names, *feed) {
            Err(f) => Err(f),
            Ok(f) => Ok(f.rows.skip(t.rows.len() as int)),
        },
        Stmt::Upsert(_, names, feed, action) => match upsert::upserted(
            cx,
            t,
            *names,
            *feed,
            *action,
        ) {
            Err(f) => Err(f),
            Ok(u) => Ok(u.touched),
        },
        Stmt::Update(_, assigns, filter) => match dml::updated(cx, t, *assigns, *filter) {
            Err(f) => Err(f),
            Ok(_) => match replaced_from(cx, t, *assigns, *filter, 0, dml::no_rows(cx)) {
                Err(f) => Err(f),
                Ok(f) => Ok(f.rows),
            },
        },
        Stmt::Delete(_, filter) => match dml::deleted(cx, t, *filter) {
            Err(f) => Err(f),
            Ok(_) => eval::kept_rows(
                cx,
                Env::Empty,
                fields::table_fields(t.columns, t.name),
                *filter,
                t.rows,
                0,
                Seq::empty(),
            ),
        },
        _ => Ok(Seq::empty()),
    }
}

fn find_touched(cx: &Cx, t: &Table, stmt: &Stmt) -> (out: Result<Vec<Tuple>, Fault>)
    ensures
        eval::result_view_rowsr(out) == touched(cx@, t@, *stmt),
{
    match stmt {
        Stmt::Insert(_, names, feed) => {
            let (rows, _): (Vec<Tuple>, Draws) = dml::insert(cx, t, names, feed)?;
            proof {
                dml::lemma_inserted_len(cx@, t@, **names, **feed);
            }
            let mut new: Vec<Tuple> = Vec::new();
            let mut i: usize = t.rows.len();
            while i < rows.len()
                invariant
                    t.rows.len() <= i <= rows.len(),
                    new@ =~= rows@.subrange(t.rows.len() as int, i as int),
                decreases rows.len() - i,
            {
                new.push(rows[i].copy());
                i += 1;
            }
            assert(new@ =~= rows@.skip(t.rows.len() as int));
            Ok(new)
        },
        Stmt::Upsert(_, names, feed, action) => {
            let (_, new, _): (Vec<Tuple>, Vec<Tuple>, Draws) = upsert::upsert(
                cx,
                t,
                names,
                feed,
                action,
            )?;
            Ok(new)
        },
        Stmt::Update(_, assigns, filter) => {
            let _: Outcome = dml::update(cx, t, assigns, filter)?;
            let (rows, _): (Vec<Tuple>, Draws) = find_replaced(cx, t, assigns, filter)?;
            Ok(rows)
        },
        Stmt::Delete(_, filter) => {
            let _: Outcome = dml::delete(cx, t, filter)?;
            let fs: Fields = Fields::of_table(&t.columns, t.name);
            eval::eval_kept_rows(cx, &Env::Empty, &fs, filter, &t.rows)
        },
        _ => Ok(Vec::new()),
    }
}

/// What is given back of the rows from place `i` on, behind `acc`.
pub open spec fn given_from(
    cx: CxModel,
    fs: Fields,
    items: Items,
    rows: Seq<Tuple>,
    i: int,
    acc: Seq<Tuple>,
) -> Result<Seq<Tuple>, Fault>
    decreases rows.len() - i,
{
    if i < 0 || i >= rows.len() {
        Ok(acc)
    } else {
        match eval::items_value(cx, Env::Frame(&fs, &rows[i], &Env::Empty), None, items) {
            Err(f) => Err(f),
            Ok(row) => given_from(cx, fs, items, rows, i + 1, acc.push(row)),
        }
    }
}

fn find_given(cx: &Cx, fs: &Fields, items: &Items, rows: &Vec<Tuple>) -> (out: Result<
    Vec<Tuple>,
    Fault,
>)
    ensures
        eval::result_view_rowsr(out) == given_from(cx@, *fs, *items, rows@, 0, Seq::empty()),
{
    let ghost goal = given_from(cx@, *fs, *items, rows@, 0, Seq::empty());
    let mut acc: Vec<Tuple> = Vec::new();
    let mut i: usize = 0;
    while i < rows.len()
        invariant
            i <= rows.len(),
            goal == given_from(cx@, *fs, *items, rows@, 0, Seq::empty()),
            goal == given_from(cx@, *fs, *items, rows@, i as int, acc@),
        decreases rows.len() - i,
    {
        let row: Tuple = eval::eval_items_value(
            cx,
            &Env::Frame(fs, &rows[i], &Env::Empty),
            None,
            items,
        )?;
        acc.push(row);
        i += 1;
    }
    Ok(acc)
}

/// What a statement gives back, if it gives rows back: their columns and the rows. All
/// of it is computed against the database as it was before.
pub open spec fn returned(cx: CxModel, stmt: Stmt) -> Result<Option<(Fields, Seq<Tuple>)>, Fault> {
    match stmt {
        Stmt::Returning(s, items) => match (columns(cx, *s, *items), table_of(cx, *s)) {
            (Err(f), _) => Err(f),
            (Ok(fs), None) => Ok(Some((fs, Seq::empty()))),
            (Ok(fs), Some(i)) => {
                let t = cx.db.tables[i as int];
                match touched(cx, t, *s) {
                    Err(f) => Err(f),
                    Ok(rows) => match given_from(
                        cx,
                        fields::table_fields(t.columns, t.name),
                        *items,
                        rows,
                        0,
                        Seq::empty(),
                    ) {
                        Err(f) => Err(f),
                        Ok(out) => Ok(Some((fs, out))),
                    },
                }
            },
        },
        Stmt::Draw(items) => match drawn_columns(cx, *items) {
            Err(f) => Err(f),
            Ok(fs) => match dml::item_cells(cx, *items, cx.db.draws) {
                Err(f) => Err(f),
                Ok(c) => Ok(Some((fs, seq![c.row]))),
            },
        },
        _ => Ok(None),
    }
}

pub open spec fn returned_view(r: Result<Option<(Fields, Vec<Tuple>)>, Fault>) -> Result<
    Option<(Fields, Seq<Tuple>)>,
    Fault,
> {
    match r {
        Err(f) => Err(f),
        Ok(None) => Ok(None),
        Ok(Some((fs, rows))) => Ok(Some((fs, rows@))),
    }
}

/// Finds what a statement gives back.
pub fn find_returned(cx: &Cx, stmt: &Stmt) -> (r: Result<Option<(Fields, Vec<Tuple>)>, Fault>)
    ensures
        returned_view(r) == returned(cx@, *stmt),
{
    match stmt {
        Stmt::Returning(s, items) => {
            let fs: Fields = find_columns(cx, s, items)?;
            match find_table(cx, s) {
                None => Ok(Some((fs, Vec::new()))),
                Some(i) => {
                    let t: &Table = &cx.db.tables[i];
                    assert(cx@.db.tables[i as int] == t@);
                    let rows: Vec<Tuple> = find_touched(cx, t, s)?;
                    let all: Fields = Fields::of_table(&t.columns, t.name);
                    let out: Vec<Tuple> = find_given(cx, &all, items, &rows)?;
                    Ok(Some((fs, out)))
                },
            }
        },
        Stmt::Draw(items) => {
            let fs: Fields = find_drawn_columns(cx, items)?;
            let c: Cells = dml::write_item_cells(cx, items, &cx.db.draws)?;
            let rows: Vec<Tuple> = vec![c.row];
            assert(rows@ =~= seq![c.row]);
            Ok(Some((fs, rows)))
        },
        _ => Ok(None),
    }
}

/// An insertion gives back one row for each row that it adds.
pub proof fn law_insertion_gives_its_rows(cx: CxModel, s: Box<Stmt>, items: Box<Items>)
    requires
        *s is Insert,
        returned(cx, Stmt::Returning(s, items)) is Ok,
        table_of(cx, *s) is Some,
    ensures
        ({
            let t = cx.db.tables[table_of(cx, *s)->Some_0 as int];
            let rows = dml::inserted(cx, t, *s->Insert_1, *s->Insert_2)->Ok_0.rows;
            returned(cx, Stmt::Returning(s, items))->Ok_0->Some_0.1.len() == rows.len()
                - t.rows.len()
        }),
{
    let t = cx.db.tables[table_of(cx, *s)->Some_0 as int];
    dml::lemma_inserted_len(cx, t, *s->Insert_1, *s->Insert_2);
    lemma_given_len(
        cx,
        fields::table_fields(t.columns, t.name),
        *items,
        touched(cx, t, *s)->Ok_0,
        0,
        Seq::empty(),
    );
}

proof fn lemma_given_len(
    cx: CxModel,
    fs: Fields,
    items: Items,
    rows: Seq<Tuple>,
    i: int,
    acc: Seq<Tuple>,
)
    requires
        0 <= i <= rows.len(),
    ensures
        given_from(cx, fs, items, rows, i, acc) matches Ok(out) ==> out.len() == acc.len()
            + rows.len() - i,
    decreases rows.len() - i,
{
    if i < rows.len() {
        if let Ok(row) = eval::items_value(
            cx,
            Env::Frame(&fs, &rows[i], &Env::Empty),
            None,
            items,
        ) {
            lemma_given_len(cx, fs, items, rows, i + 1, acc.push(row));
        }
    }
}

} // verus!
