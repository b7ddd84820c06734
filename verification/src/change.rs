//! What statements that change a database do to it.

use vstd::prelude::*;
use crate::analyze::Cx;
use crate::analyze::CxModel;
use crate::analyze::Named;
use crate::analyze::NamedModel;
use crate::analyze::Params;
use crate::ast::Assigns;
use crate::ast::Column;
use crate::ast::Columns;
use crate::ast::Conflict;
use crate::ast::Expr;
use crate::ast::Feed;
use crate::ast::Filler;
use crate::ast::Grantee;
use crate::ast::Idents;
use crate::ast::Items;
use crate::ast::Name;
use crate::ast::Privileges;
use crate::ast::RoleOptions;
use crate::ast::Stmt;
use crate::ast::TableDefs;
use crate::ast::Target;
use crate::catalog;
use crate::catalog::Db;
use crate::catalog::DbModel;
use crate::catalog::Draws;
use crate::catalog::Grant;
use crate::catalog::Member;
use crate::catalog::Object;
use crate::catalog::Role;
use crate::catalog::Sequence;
use crate::catalog::Table;
use crate::catalog::TableModel;
use crate::datum;
use crate::datum::Datum;
use crate::datum::Tuple;
use crate::dml;
use crate::dml::Cells;
use crate::dml::Outcome;
use crate::fault::Fault;
use crate::fault::Tag;
use crate::notice::Notice;
use crate::security;
use crate::security::SecurityConfig;
use crate::symbols;
use crate::symbols::Symbols;
use crate::upsert;

verus! {

/// What a statement makes of a database, with the number of rows it touched and
/// what it has to say.
pub struct Change {
    pub db: DbModel,
    pub count: u64,
    pub notices: Seq<Notice>,
}

/// The number of rows that a statement touched and what it has to say.
pub struct Effect {
    pub count: u64,
    pub notices: Vec<Notice>,
}

/// Whether a database and an answer are what `s` says; on an error the database
/// stays as it was.
pub open spec fn effect_is(
    before: DbModel,
    after: DbModel,
    out: Result<Effect, Fault>,
    s: Result<Change, Fault>,
) -> bool {
    match (out, s) {
        (Ok(e), Ok(c)) => after == c.db && e.count == c.count && e.notices@ == c.notices,
        (Err(f), Err(g)) => f == g && after == before,
        _ => false,
    }
}

/// A change of a database that touches no row and says nothing.
pub open spec fn plain(db: DbModel) -> Change {
    Change { db, count: 0, notices: Seq::empty() }
}

fn nothing() -> (r: Effect)
    ensures
        r.count == 0,
        r.notices@ == Seq::<Notice>::empty(),
{
    Effect { count: 0, notices: Vec::new() }
}

/// A database whose table at place `i` has other rows.
pub open spec fn with_rows(db: DbModel, i: usize, rows: Seq<Tuple>) -> DbModel {
    DbModel {
        tables: db.tables.update(i as int, (TableModel { rows, ..db.tables[i as int] })),
        ..db
    }
}

fn set_rows(db: &mut Db, i: usize, rows: Vec<Tuple>)
    requires
        i < old(db).tables.len(),
    ensures
        final(db)@ == with_rows(old(db)@, i, rows@),
{
    let ghost before = db@;
    let mut t: Table = db.tables.remove(i);
    t.rows = rows;
    db.tables.insert(i, t);
    assert(db@.tables =~= with_rows(before, i, rows@).tables);
}

/// The privileges to add, change and remove rows.
pub open spec fn inserting() -> Privileges {
    Privileges { select: false, insert: true, update: false, delete: false, create: false }
}

pub open spec fn updating() -> Privileges {
    Privileges { select: false, insert: false, update: true, delete: false, create: false }
}

pub open spec fn deleting() -> Privileges {
    Privileges { select: false, insert: false, update: false, delete: true, create: false }
}

pub fn to_insert() -> (r: Privileges)
    ensures
        r == inserting(),
{
    Privileges { select: false, insert: true, update: false, delete: false, create: false }
}

pub fn to_update() -> (r: Privileges)
    ensures
        r == updating(),
{
    Privileges { select: false, insert: false, update: true, delete: false, create: false }
}

pub fn to_delete() -> (r: Privileges)
    ensures
        r == deleting(),
{
    Privileges { select: false, insert: false, update: false, delete: true, create: false }
}

/// The table that a name means, for someone who may do to it what `want` says.
pub open spec fn open_table(cx: CxModel, n: Name, want: Privileges) -> Result<usize, Fault> {
    match catalog::resolved(cx.db.tables, cx.path, n) {
        None => Err(Fault::UndefinedTable { schema: n.schema, name: n.name }),
        Some(i) => if catalog::allowed(cx.db, cx.user, cx.db.tables[i as int], want) {
            Ok(i)
        } else {
            Err(Fault::Denied { name: n.name })
        },
    }
}

pub fn find_open_table(cx: &Cx, n: Name, want: Privileges) -> (r: Result<usize, Fault>)
    ensures
        r == open_table(cx@, n, want),
        r is Ok ==> r->Ok_0 < cx.db.tables.len(),
{
    match cx.db.resolve(cx.path, n) {
        None => Err(Fault::UndefinedTable { schema: n.schema, name: n.name }),
        Some(i) => if cx.db.allows(cx.user, i, want) {
            Ok(i)
        } else {
            Err(Fault::Denied { name: n.name })
        },
    }
}

/// A database with other values drawn from its sequences.
pub open spec fn with_draws(db: DbModel, draws: Draws) -> DbModel {
    DbModel { draws, ..db }
}

/// `INSERT`.
pub open spec fn insertion(cx: CxModel, n: Name, names: Idents, feed: Feed) -> Result<
    Change,
    Fault,
> {
    match open_table(cx, n, inserting()) {
        Err(f) => Err(f),
        Ok(i) => match dml::inserted(cx, cx.db.tables[i as int], names, feed) {
            Err(f) => Err(f),
            Ok(f) => Ok(
                Change {
                    db: with_draws(with_rows(cx.db, i, f.rows), f.left),
                    count: (f.rows.len() - cx.db.tables[i as int].rows.len()) as u64,
                    notices: Seq::empty(),
                },
            ),
        },
    }
}

/// Who may insert rows, and may change rows where the action does.
pub open spec fn upserting(action: Conflict) -> Privileges {
    match action {
        Conflict::Nothing(_) => inserting(),
        Conflict::Update(_, _, _) => catalog::both_privileges(inserting(), updating()),
    }
}

pub fn to_upsert(action: &Conflict) -> (r: Privileges)
    ensures
        r == upserting(*action),
{
    match action {
        Conflict::Nothing(_) => to_insert(),
        Conflict::Update(_, _, _) => catalog::join_privileges(to_insert(), to_update()),
    }
}

/// `INSERT … ON CONFLICT`.
pub open spec fn merging(
    cx: CxModel,
    n: Name,
    names: Idents,
    feed: Feed,
    action: Conflict,
) -> Result<Change, Fault> {
    match open_table(cx, n, upserting(action)) {
        Err(f) => Err(f),
        Ok(i) => match upsert::upserted(cx, cx.db.tables[i as int], names, feed, action) {
            Err(f) => Err(f),
            Ok(u) => Ok(
                Change {
                    db: with_draws(with_rows(cx.db, i, u.rows), u.left),
                    count: u.touched.len() as u64,
                    notices: Seq::empty(),
                },
            ),
        },
    }
}

/// `UPDATE`.
pub open spec fn replacement(cx: CxModel, n: Name, assigns: Assigns, filter: Expr) -> Result<
    Change,
    Fault,
> {
    match open_table(cx, n, updating()) {
        Err(f) => Err(f),
        Ok(i) => match dml::updated(cx, cx.db.tables[i as int], assigns, filter) {
            Err(f) => Err(f),
            Ok(c) => Ok(
                Change {
                    db: with_draws(with_rows(cx.db, i, c.rows), c.left),
                    count: c.count,
                    notices: Seq::empty(),
                },
            ),
        },
    }
}

/// A select list that draws from sequences.
pub open spec fn drawing(cx: CxModel, items: Items) -> Result<Change, Fault> {
    match dml::item_cells(cx, items, cx.db.draws) {
        Err(f) => Err(f),
        Ok(c) => Ok(plain(with_draws(cx.db, c.left))),
    }
}

/// `DELETE`.
pub open spec fn removal(cx: CxModel, n: Name, filter: Expr) -> Result<Change, Fault> {
    match open_table(cx, n, deleting()) {
        Err(f) => Err(f),
        Ok(i) => match dml::deleted(cx, cx.db.tables[i as int], filter) {
            Err(f) => Err(f),
            Ok(c) => Ok(
                Change { db: with_rows(cx.db, i, c.rows), count: c.count, notices: Seq::empty() },
            ),
        },
    }
}

/// The schema that something new goes to: the one of its name, or the first of
/// the search path.
pub open spec fn new_schema(cx: CxModel, n: Name) -> Result<usize, Fault> {
    match n.schema {
        Some(s) => if cx.db.schemas.contains(s) {
            Ok(s)
        } else {
            Err(Fault::UndefinedSchema { name: s })
        },
        None => match catalog::creation_schema(cx.db.schemas, cx.path) {
            Some(s) => Ok(s),
            None => Err(Fault::UndefinedSchema { name: symbols::PUBLIC }),
        },
    }
}

fn schema_of_new(cx: &Cx, n: Name) -> (r: Result<usize, Fault>)
    ensures
        r == new_schema(cx@, n),
{
    match n.schema {
        Some(s) => if cx.db.has_schema(s) {
            Ok(s)
        } else {
            Err(Fault::UndefinedSchema { name: s })
        },
        None => match cx.db.schema_for_new(cx.path) {
            Some(s) => Ok(s),
            None => Err(Fault::UndefinedSchema { name: symbols::PUBLIC }),
        },
    }
}

/// The first name that more than one of some columns has.
pub open spec fn repeated(cs: Columns) -> Option<usize>
    decreases cs,
{
    match cs {
        Columns::Nil => None,
        Columns::Cons(c, rest) => if catalog::column_named(*rest, c.name) is Some {
            Some(c.name)
        } else {
            repeated(*rest)
        },
    }
}

fn find_repeated(cs: &Columns) -> (r: Option<usize>)
    ensures
        r == repeated(*cs),
    decreases cs,
{
    match cs {
        Columns::Nil => None,
        Columns::Cons(c, rest) => if rest.named(c.name).is_some() {
            Some(c.name)
        } else {
            find_repeated(rest)
        },
    }
}

/// The columns of a table that inherits: those of the parent, and behind them its
/// own that the parent does not have. A column that both have must have one type.
pub open spec fn own_columns(parent: Columns, cs: Columns) -> Result<Columns, Fault>
    decreases cs,
{
    match cs {
        Columns::Nil => Ok(Columns::Nil),
        Columns::Cons(c, rest) => match own_columns(parent, *rest) {
            Err(f) => Err(f),
            Ok(more) => match catalog::column_named(parent, c.name) {
                None => Ok(Columns::Cons(c, Box::new(more))),
                Some(p) => if p.ty == c.ty {
                    Ok(more)
                } else {
                    Err(Fault::ColumnMismatch { name: c.name })
                },
            },
        },
    }
}

fn find_own_columns(parent: &Columns, cs: &Columns) -> (r: Result<Columns, Fault>)
    ensures
        r == own_columns(*parent, *cs),
    decreases cs,
{
    match cs {
        Columns::Nil => Ok(Columns::Nil),
        Columns::Cons(c, rest) => {
            let more: Columns = find_own_columns(parent, rest)?;
            match parent.named(c.name) {
                None => Ok(Columns::Cons(*c, Box::new(more))),
                Some(p) => if p.ty == c.ty {
                    Ok(more)
                } else {
                    Err(Fault::ColumnMismatch { name: c.name })
                },
            }
        },
    }
}

/// What is said of the columns that a table has in common with its parent, behind
/// `acc`.
pub open spec fn merge_notices(parent: Columns, cs: Columns, acc: Seq<Notice>) -> Seq<Notice>
    decreases cs,
{
    match cs {
        Columns::Nil => acc,
        Columns::Cons(c, rest) => merge_notices(
            parent,
            *rest,
            if catalog::column_named(parent, c.name) is Some {
                acc.push(Notice::Merging(c.name))
            } else {
                acc
            },
        ),
    }
}

fn note_merges(parent: &Columns, cs: &Columns, acc: Vec<Notice>) -> (r: Vec<Notice>)
    ensures
        r@ == merge_notices(*parent, *cs, acc@),
    decreases cs,
{
    match cs {
        Columns::Nil => acc,
        Columns::Cons(c, rest) => {
            let mut more: Vec<Notice> = acc;
            if parent.named(c.name).is_some() {
                more.push(Notice::Merging(c.name));
            }
            note_merges(parent, rest, more)
        },
    }
}

/// A database with one more table, which is empty.
pub open spec fn with_table(
    db: DbModel,
    schema: usize,
    name: usize,
    owner: usize,
    columns: Columns,
) -> DbModel {
    DbModel {
        tables: db.tables.push((TableModel { schema, name, owner, columns, rows: Seq::empty() })),
        ..db
    }
}

fn add_table(db: &mut Db, schema: usize, name: usize, owner: usize, columns: Columns)
    ensures
        final(db)@ == with_table(old(db)@, schema, name, owner, columns),
{
    let ghost before = db@;
    db.tables.push(Table { schema, name, owner, columns, rows: Vec::new() });
    assert(db@.tables =~= with_table(before, schema, name, owner, columns).tables);
}

/// `CREATE TABLE`.
pub open spec fn table_creation(
    cx: CxModel,
    n: Name,
    quiet: bool,
    cs: Columns,
    parent: Option<Name>,
) -> Result<Change, Fault> {
    match new_schema(cx, n) {
        Err(f) => Err(f),
        Ok(schema) => if catalog::table_place(cx.db.tables, schema, n.name, 0) is Some {
            if quiet {
                Ok(plain(cx.db))
            } else {
                Err(Fault::DuplicateTable { name: n.name })
            }
        } else {
            match repeated(cs) {
                Some(name) => Err(Fault::DuplicateColumn { name }),
                None => match parent {
                    None => Ok(plain(with_table(cx.db, schema, n.name, cx.user, cs))),
                    Some(p) => match catalog::resolved(cx.db.tables, cx.path, p) {
                        None => Err(Fault::UndefinedTable { schema: p.schema, name: p.name }),
                        Some(i) => {
                            let ps = cx.db.tables[i as int].columns;
                            match own_columns(ps, cs) {
                                Err(f) => Err(f),
                                Ok(own) => Ok(
                                    Change {
                                        db: with_table(
                                            cx.db,
                                            schema,
                                            n.name,
                                            cx.user,
                                            catalog::columns_append(ps, own),
                                        ),
                                        count: 0,
                                        notices: merge_notices(ps, cs, Seq::empty()),
                                    },
                                ),
                            }
                        },
                    },
                },
            }
        },
    }
}

/// The privileges on all objects but one.
pub open spec fn without_object(gs: Seq<Grant>, o: Object) -> Seq<Grant>
    decreases gs.len(),
{
    if gs.len() == 0 {
        Seq::empty()
    } else if gs.last().object == o {
        without_object(gs.drop_last(), o)
    } else {
        without_object(gs.drop_last(), o).push(gs.last())
    }
}

fn forget_object(gs: &Vec<Grant>, o: Object) -> (r: Vec<Grant>)
    ensures
        r@ == without_object(gs@, o),
{
    let mut kept: Vec<Grant> = Vec::new();
    let mut k: usize = 0;
    while k < gs.len()
        invariant
            k <= gs.len(),
            kept@ == without_object(gs@.take(k as int), o),
        decreases gs.len() - k,
    {
        assert(gs@.take(k + 1).drop_last() =~= gs@.take(k as int));
        if gs[k].object != o {
            kept.push(gs[k]);
        }
        k += 1;
    }
    assert(gs@.take(k as int) =~= gs@);
    kept
}

/// A database without the table at place `i` and the privileges on it.
pub open spec fn without_table(db: DbModel, i: int) -> DbModel {
    let t = db.tables[i];
    DbModel {
        tables: db.tables.remove(i),
        grants: without_object(db.grants, Object::Table(t.schema, t.name)),
        ..db
    }
}

fn remove_table(db: &mut Db, i: usize)
    requires
        i < old(db).tables.len(),
    ensures
        final(db)@ == without_table(old(db)@, i as int),
{
    let ghost before = db@;
    let t: Table = db.tables.remove(i);
    let kept: Vec<Grant> = forget_object(&db.grants, Object::Table(t.schema, t.name));
    db.grants = kept;
    assert(db@.tables =~= without_table(before, i as int).tables);
}

/// Whether someone may drop a table or speak for it: a superuser and the owner.
pub open spec fn owns(cx: CxModel, i: usize) -> bool {
    catalog::may_administer(cx.db.roles, cx.user) || cx.db.tables[i as int].owner == cx.user
}

/// `DROP TABLE`.
pub open spec fn table_removal(cx: CxModel, n: Name, quiet: bool) -> Result<Change, Fault> {
    match catalog::resolved(cx.db.tables, cx.path, n) {
        None => if quiet {
            Ok(plain(cx.db))
        } else {
            Err(Fault::UndefinedTable { schema: n.schema, name: n.name })
        },
        Some(i) => if owns(cx, i) {
            Ok(plain(without_table(cx.db, i as int)))
        } else {
            Err(Fault::Denied { name: n.name })
        },
    }
}

/// A database whose table at place `i` has other columns and rows.
pub open spec fn with_shape(db: DbModel, i: usize, columns: Columns, rows: Seq<Tuple>) -> DbModel {
    DbModel {
        tables: db.tables.update(
            i as int,
            (TableModel { columns, rows, ..db.tables[i as int] }),
        ),
        ..db
    }
}

fn set_shape(db: &mut Db, i: usize, columns: Columns, rows: Vec<Tuple>)
    requires
        i < old(db).tables.len(),
    ensures
        final(db)@ == with_shape(old(db)@, i, columns, rows@),
{
    let ghost before = db@;
    let mut t: Table = db.tables.remove(i);
    t.columns = columns;
    t.rows = rows;
    db.tables.insert(i, t);
    assert(db@.tables =~= with_shape(before, i, columns, rows@).tables);
}

/// The table that a name means, for someone who owns it.
pub open spec fn owned_table(cx: CxModel, n: Name) -> Result<usize, Fault> {
    match catalog::resolved(cx.db.tables, cx.path, n) {
        None => Err(Fault::UndefinedTable { schema: n.schema, name: n.name }),
        Some(i) => if owns(cx, i) {
            Ok(i)
        } else {
            Err(Fault::Denied { name: n.name })
        },
    }
}

fn find_owned_table(cx: &Cx, n: Name) -> (r: Result<usize, Fault>)
    ensures
        r == owned_table(cx@, n),
        r is Ok ==> r->Ok_0 < cx.db.tables.len(),
{
    match cx.db.resolve(cx.path, n) {
        None => Err(Fault::UndefinedTable { schema: n.schema, name: n.name }),
        Some(i) => if cx.db.administers(cx.user) || cx.db.tables[i].owner == cx.user {
            Ok(i)
        } else {
            Err(Fault::Denied { name: n.name })
        },
    }
}

/// Rows with one more cell at their end.
pub open spec fn widened(rows: Seq<Tuple>, d: Datum) -> Seq<Tuple> {
    rows.map_values(|r: Tuple| datum::tuple_append(r, Tuple::Cons(d, Box::new(Tuple::Nil))))
}

fn widen(rows: &Vec<Tuple>, d: Datum) -> (r: Vec<Tuple>)
    ensures
        r@ == widened(rows@, d),
{
    let cell: Tuple = Tuple::Cons(d, Box::new(Tuple::Nil));
    let mut out: Vec<Tuple> = Vec::new();
    let mut i: usize = 0;
    while i < rows.len()
        invariant
            i <= rows.len(),
            cell == Tuple::Cons(d, Box::new(Tuple::Nil)),
            out@ =~= widened(rows@, d).take(i as int),
        decreases rows.len() - i,
    {
        out.push(rows[i].append(&cell));
        i += 1;
    }
    assert(out@ =~= widened(rows@, d));
    out
}

/// `ALTER TABLE .. ADD COLUMN`. The rows that are there get what the column gets
/// when no value is given for it, be it null or not.
pub open spec fn column_addition(cx: CxModel, n: Name, c: Column) -> Result<Change, Fault> {
    match owned_table(cx, n) {
        Err(f) => Err(f),
        Ok(i) => {
            let t = cx.db.tables[i as int];
            if catalog::column_named(t.columns, c.name) is Some {
                Err(Fault::DuplicateColumn { name: c.name })
            } else if c.filler is Next {
                Err(Fault::MisplacedDraw)
            } else {
                match dml::stored_value(
                    cx.symbols,
                    Column { not_null: false, ..c },
                    dml::filler_of(c),
                ) {
                    Err(f) => Err(f),
                    Ok(d) => {
                        let columns = catalog::columns_append(
                            t.columns,
                            Columns::Cons(c, Box::new(Columns::Nil)),
                        );
                        match dml::place_rows(columns, Seq::empty(), widened(t.rows, d), 0) {
                            Err(f) => Err(f),
                            Ok(rows) => Ok(plain(with_shape(cx.db, i, columns, rows))),
                        }
                    },
                }
            }
        },
    }
}

/// The columns without the one of a given name.
pub open spec fn without_column(cs: Columns, name: usize) -> Columns
    decreases cs,
{
    match cs {
        Columns::Nil => Columns::Nil,
        Columns::Cons(c, rest) => if c.name == name {
            *rest
        } else {
            Columns::Cons(c, Box::new(without_column(*rest, name)))
        },
    }
}

fn remove_column(cs: &Columns, name: usize) -> (r: Columns)
    ensures
        r == without_column(*cs, name),
    decreases cs,
{
    match cs {
        Columns::Nil => Columns::Nil,
        Columns::Cons(c, rest) => if c.name == name {
            rest.copy()
        } else {
            Columns::Cons(*c, Box::new(remove_column(rest, name)))
        },
    }
}

/// Rows with the columns `cs` without the values in one of them.
pub open spec fn narrowed(cs: Columns, rows: Seq<Tuple>, name: usize) -> Seq<Tuple> {
    rows.map_values(|r: Tuple| dml::without_named(cs, r, name))
}

fn narrow(cs: &Columns, rows: &Vec<Tuple>, name: usize) -> (r: Vec<Tuple>)
    ensures
        r@ == narrowed(*cs, rows@, name),
{
    let mut out: Vec<Tuple> = Vec::new();
    let mut i: usize = 0;
    while i < rows.len()
        invariant
            i <= rows.len(),
            out@ =~= narrowed(*cs, rows@, name).take(i as int),
        decreases rows.len() - i,
    {
        out.push(dml::write_without_named(cs, &rows[i], name));
        i += 1;
    }
    assert(out@ =~= narrowed(*cs, rows@, name));
    out
}

/// `ALTER TABLE .. DROP COLUMN`.
pub open spec fn column_removal(cx: CxModel, n: Name, name: usize, quiet: bool) -> Result<
    Change,
    Fault,
> {
    match owned_table(cx, n) {
        Err(f) => Err(f),
        Ok(i) => {
            let t = cx.db.tables[i as int];
            match catalog::column_named(t.columns, name) {
                None => if quiet {
                    Ok(plain(cx.db))
                } else {
                    Err(Fault::UndefinedColumn { table: Some(n.name), name })
                },
                Some(_) => Ok(
                    plain(
                        with_shape(
                            cx.db,
                            i,
                            without_column(t.columns, name),
                            narrowed(t.columns, t.rows, name),
                        ),
                    ),
                ),
            }
        },
    }
}

/// The first of some names that is not the name of a column.
pub open spec fn unknown_column(cs: Columns, names: Idents) -> Option<usize>
    decreases names,
{
    match names {
        Idents::Nil => None,
        Idents::Cons(n, rest) => if catalog::column_named(cs, n) is None {
            Some(n)
        } else {
            unknown_column(cs, *rest)
        },
    }
}

fn find_unknown_column(cs: &Columns, names: &Idents) -> (r: Option<usize>)
    ensures
        r == unknown_column(*cs, *names),
    decreases names,
{
    match names {
        Idents::Nil => None,
        Idents::Cons(n, rest) => if cs.named(*n).is_none() {
            Some(*n)
        } else {
            find_unknown_column(cs, rest)
        },
    }
}

/// `CREATE INDEX`. An index does not show in what queries return.
pub open spec fn index_creation(cx: CxModel, n: Name, names: Idents) -> Result<Change, Fault> {
    match catalog::resolved(cx.db.tables, cx.path, n) {
        None => Err(Fault::UndefinedTable { schema: n.schema, name: n.name }),
        Some(i) => match unknown_column(cx.db.tables[i as int].columns, names) {
            Some(name) => Err(Fault::UndefinedColumn { table: Some(n.name), name }),
            None => Ok(plain(cx.db)),
        },
    }
}

/// The tables that are made together with the schema `schema`, after what was said
/// before.
pub open spec fn tables_creation(
    cx: CxModel,
    schema: usize,
    tables: TableDefs,
    said: Seq<Notice>,
) -> Result<Change, Fault>
    decreases tables,
{
    match tables {
        TableDefs::Nil => Ok(Change { db: cx.db, count: 0, notices: said }),
        TableDefs::Cons(n, quiet, cs, parent, rest) => {
            let stated = match n.schema {
                Some(x) => x,
                None => schema,
            };
            if stated != schema {
                Err(Fault::SchemaMismatch { stated, made: schema })
            } else {
                match table_creation(
                    cx,
                    Name { schema: Some(schema), name: n.name },
                    quiet,
                    *cs,
                    parent,
                ) {
                    Err(f) => Err(f),
                    Ok(c) => tables_creation(
                        CxModel { db: c.db, ..cx },
                        schema,
                        *rest,
                        said + c.notices,
                    ),
                }
            }
        },
    }
}

/// `CREATE SCHEMA`: a schema without a name of its own has that of the user.
pub open spec fn schema_creation(cx: CxModel, given: Option<usize>, tables: TableDefs) -> Result<
    Change,
    Fault,
> {
    let name = match given {
        Some(n) => n,
        None => cx.user,
    };
    if !catalog::may_administer(cx.db.roles, cx.user) {
        Err(Fault::NotSuperuser)
    } else if cx.db.schemas.contains(name) {
        Err(Fault::DuplicateSchema { name })
    } else {
        let db = DbModel { schemas: cx.db.schemas.push(name), ..cx.db };
        tables_creation(CxModel { db, ..cx }, name, tables, Seq::empty())
    }
}

/// A database without the tables of a schema at places below `n`, and without the
/// privileges on them.
pub open spec fn without_tables_in(db: DbModel, schema: usize, n: int) -> DbModel
    decreases n,
{
    if n <= 0 {
        db
    } else if db.tables[n - 1].schema == schema {
        without_tables_in(without_table(db, n - 1), schema, n - 1)
    } else {
        without_tables_in(db, schema, n - 1)
    }
}

/// The sequences of other schemas.
pub open spec fn sequences_outside(ss: Seq<Sequence>, schema: usize) -> Seq<Sequence>
    decreases ss.len(),
{
    if ss.len() == 0 {
        Seq::empty()
    } else if ss.last().schema == schema {
        sequences_outside(ss.drop_last(), schema)
    } else {
        sequences_outside(ss.drop_last(), schema).push(ss.last())
    }
}

/// The first place at or after `from` of a schema.
pub open spec fn schema_place(schemas: Seq<usize>, name: usize, from: int) -> Option<int>
    decreases schemas.len() - from,
{
    if from < 0 || from >= schemas.len() {
        None
    } else if schemas[from] == name {
        Some(from)
    } else {
        schema_place(schemas, name, from + 1)
    }
}

/// `DROP SCHEMA`: a schema with tables or sequences goes only together with them.
pub open spec fn schema_removal(cx: CxModel, name: usize, quiet: bool, cascade: bool) -> Result<
    Change,
    Fault,
> {
    if !catalog::may_administer(cx.db.roles, cx.user) {
        Err(Fault::NotSuperuser)
    } else {
        match schema_place(cx.db.schemas, name, 0) {
            None => if quiet {
                Ok(plain(cx.db))
            } else {
                Err(Fault::UndefinedSchema { name })
            },
            Some(i) => {
                let bare = without_tables_in(cx.db, name, cx.db.tables.len() as int);
                let sequences = sequences_outside(cx.db.sequences, name);
                if !cascade && (bare.tables.len() < cx.db.tables.len() || sequences.len()
                    < cx.db.sequences.len()) {
                    Err(Fault::SchemaInUse { name })
                } else {
                    Ok(
                        plain(
                            DbModel {
                                schemas: cx.db.schemas.remove(i),
                                sequences,
                                draws: catalog::drawn_outside(bare.draws, name),
                                grants: without_object(bare.grants, Object::Schema(name)),
                                ..bare
                            },
                        ),
                    )
                }
            },
        }
    }
}

/// `CREATE SEQUENCE`.
pub open spec fn sequence_creation(cx: CxModel, n: Name) -> Result<Change, Fault> {
    match new_schema(cx, n) {
        Err(f) => Err(f),
        Ok(schema) => {
            let s = Sequence { schema, name: n.name };
            if catalog::sequence_place(cx.db.sequences, s, 0) is Some {
                Err(Fault::DuplicateTable { name: n.name })
            } else {
                Ok(plain(DbModel { sequences: cx.db.sequences.push(s), ..cx.db }))
            }
        },
    }
}

/// `DROP SEQUENCE`.
pub open spec fn sequence_removal(cx: CxModel, n: Name, quiet: bool) -> Result<Change, Fault> {
    match catalog::sequence_resolved(cx.db.sequences, cx.path, n) {
        None => if quiet {
            Ok(plain(cx.db))
        } else {
            Err(Fault::UndefinedSequence { name: n.name })
        },
        Some(i) => Ok(
            plain(
                DbModel {
                    sequences: cx.db.sequences.remove(i as int),
                    draws: catalog::without_drawn(cx.db.draws, cx.db.sequences[i as int]),
                    ..cx.db
                },
            ),
        ),
    }
}

/// What is wrong with the password that a command gives to a role.
pub open spec fn option_fault(
    t: Seq<Seq<char>>,
    c: SecurityConfig,
    role: usize,
    o: RoleOptions,
) -> Option<Fault> {
    match o.password {
        None => None,
        Some(p) => security::password_fault(t, c, role, p),
    }
}

fn check_options(t: &Symbols, c: &SecurityConfig, role: usize, o: RoleOptions) -> (r: Option<Fault>)
    ensures
        r == option_fault(t@, *c, role, o),
{
    match o.password {
        None => None,
        Some(p) => security::check_password(t, c, role, p),
    }
}

/// A role with the options that a command sets.
pub open spec fn with_options(r: Role, o: RoleOptions) -> Role {
    Role {
        name: r.name,
        superuser: match o.superuser {
            Some(b) => b,
            None => r.superuser,
        },
        login: match o.login {
            Some(b) => b,
            None => r.login,
        },
        password: match o.password {
            Some(p) => Some(p),
            None => r.password,
        },
    }
}

fn set_options(r: Role, o: RoleOptions) -> (out: Role)
    ensures
        out == with_options(r, o),
{
    Role {
        name: r.name,
        superuser: match o.superuser {
            Some(b) => b,
            None => r.superuser,
        },
        login: match o.login {
            Some(b) => b,
            None => r.login,
        },
        password: match o.password {
            Some(p) => Some(p),
            None => r.password,
        },
    }
}

/// `CREATE ROLE`.
pub open spec fn role_creation(
    cx: CxModel,
    c: SecurityConfig,
    name: usize,
    o: RoleOptions,
) -> Result<
    Change,
    Fault,
> {
    if !catalog::may_administer(cx.db.roles, cx.user) {
        Err(Fault::NotSuperuser)
    } else if catalog::role_place(cx.db.roles, name, 0) is Some {
        Err(Fault::RoleExists { name })
    } else {
        match option_fault(cx.symbols, c, name, o) {
            Some(f) => Err(f),
            None => Ok(
                plain(
                    DbModel {
                        roles: cx.db.roles.push(
                            with_options(
                                Role { name, superuser: false, login: false, password: None },
                                o,
                            ),
                        ),
                        ..cx.db
                    },
                ),
            ),
        }
    }
}

/// `ALTER ROLE`.
pub open spec fn role_alteration(
    cx: CxModel,
    c: SecurityConfig,
    name: usize,
    o: RoleOptions,
) -> Result<Change, Fault> {
    if !catalog::may_administer(cx.db.roles, cx.user) {
        Err(Fault::NotSuperuser)
    } else {
        match catalog::role_place(cx.db.roles, name, 0) {
            None => Err(Fault::RoleMissing { name }),
            Some(i) => match option_fault(cx.symbols, c, name, o) {
                Some(f) => Err(f),
                None => Ok(
                    plain(
                        DbModel {
                            roles: cx.db.roles.update(
                                i as int,
                                with_options(cx.db.roles[i as int], o),
                            ),
                            ..cx.db
                        },
                    ),
                ),
            },
        }
    }
}

/// `DROP ROLE`.
pub open spec fn role_removal(cx: CxModel, name: usize, quiet: bool) -> Result<Change, Fault> {
    if !catalog::may_administer(cx.db.roles, cx.user) {
        Err(Fault::NotSuperuser)
    } else {
        match catalog::role_place(cx.db.roles, name, 0) {
            None => if quiet {
                Ok(plain(cx.db))
            } else {
                Err(Fault::RoleMissing { name })
            },
            Some(i) => Ok(
                plain(
                    DbModel {
                        roles: cx.db.roles.remove(i as int),
                        grants: catalog::without_role(
                            cx.db.grants,
                            cx.db.roles[i as int].name,
                        ),
                        members: catalog::without_memberships(
                            cx.db.members,
                            cx.db.roles[i as int].name,
                        ),
                        ..cx.db
                    },
                ),
            ),
        }
    }
}

/// Who may make others members of a role: a superuser, and a member that was given
/// the right.
pub open spec fn may_admit(db: DbModel, user: usize, role: usize) -> bool {
    ||| catalog::may_administer(db.roles, user)
    ||| exists|i: int|
        0 <= i < db.members.len() && (#[trigger] db.members[i]).role == role && db.members[i].member
            == user && db.members[i].admin
}

fn admits(db: &Db, user: usize, role: usize) -> (r: bool)
    ensures
        r == may_admit(db@, user, role),
{
    if db.administers(user) {
        return true;
    }
    let mut i: usize = 0;
    while i < db.members.len()
        invariant
            i <= db.members.len(),
            forall|k: int|
                0 <= k < i ==> !((#[trigger] db@.members[k]).role == role && db@.members[k].member
                    == user && db@.members[k].admin),
        decreases db.members.len() - i,
    {
        let m: Member = db.members[i];
        if m.role == role && m.member == user && m.admin {
            assert(db@.members[i as int] == m);
            return true;
        }
        i += 1;
    }
    false
}

/// The first place at or after `from` of a membership that a role gave.
pub open spec fn member_place(
    ms: Seq<Member>,
    role: usize,
    member: usize,
    grantor: usize,
    from: int,
) -> Option<int>
    decreases ms.len() - from,
{
    if from < 0 || from >= ms.len() {
        None
    } else if ms[from].role == role && ms[from].member == member && ms[from].grantor == grantor {
        Some(from)
    } else {
        member_place(ms, role, member, grantor, from + 1)
    }
}

fn find_member(ms: &Vec<Member>, role: usize, member: usize, grantor: usize) -> (r: Option<usize>)
    ensures
        match r {
            Some(i) => i < ms.len() && member_place(ms@, role, member, grantor, 0) == Some(
                i as int,
            ),
            None => member_place(ms@, role, member, grantor, 0) is None,
        },
{
    let mut i: usize = 0;
    while i < ms.len()
        invariant
            i <= ms.len(),
            member_place(ms@, role, member, grantor, 0) == member_place(
                ms@,
                role,
                member,
                grantor,
                i as int,
            ),
        decreases ms.len() - i,
    {
        if ms[i].role == role && ms[i].member == member && ms[i].grantor == grantor {
            return Some(i);
        }
        i += 1;
    }
    None
}

/// The first of a role, a member and the one who speaks that is not there.
pub open spec fn missing_role(
    db: DbModel,
    role: usize,
    member: usize,
    by: Option<usize>,
) -> Option<usize> {
    if catalog::role_place(db.roles, role, 0) is None {
        Some(role)
    } else if catalog::role_place(db.roles, member, 0) is None {
        Some(member)
    } else {
        match by {
            None => None,
            Some(g) => if catalog::role_place(db.roles, g, 0) is None {
                Some(g)
            } else {
                None
            },
        }
    }
}

fn find_missing_role(db: &Db, role: usize, member: usize, by: Option<usize>) -> (r: Option<usize>)
    ensures
        r == missing_role(db@, role, member, by),
{
    if db.role(role).is_none() {
        Some(role)
    } else if db.role(member).is_none() {
        Some(member)
    } else {
        match by {
            None => None,
            Some(g) => if db.role(g).is_none() {
                Some(g)
            } else {
                None
            },
        }
    }
}

/// `GRANT` of a role to a role. No role becomes a member of one that is a member of
/// it.
pub open spec fn admission(
    cx: CxModel,
    role: usize,
    member: usize,
    admin: bool,
    by: Option<usize>,
) -> Result<Change, Fault> {
    let grantor = match by {
        Some(g) => g,
        None => cx.user,
    };
    match missing_role(cx.db, role, member, by) {
        Some(name) => Err(Fault::RoleMissing { name }),
        None => if !may_admit(cx.db, cx.user, role) {
            Err(Fault::NotSuperuser)
        } else if catalog::belongs(cx.db.members, role, member, cx.db.members.len()) {
            Err(Fault::RoleCycle { role, member })
        } else {
            let ms = cx.db.members;
            Ok(
                plain(
                    DbModel {
                        members: match member_place(ms, role, member, grantor, 0) {
                            Some(i) => ms.update(
                                i,
                                Member { admin: ms[i].admin || admin, ..ms[i] },
                            ),
                            None => ms.push(Member { role, member, grantor, admin }),
                        },
                        ..cx.db
                    },
                ),
            )
        },
    }
}

fn do_admit(
    db: &mut Db,
    symbols: &Symbols,
    path: &Idents,
    user: usize,
    params: &Params,
    role: usize,
    member: usize,
    admin: bool,
    by: Option<usize>,
) -> (out: Result<Effect, Fault>)
    ensures
        effect_is(
            old(db)@,
            final(db)@,
            out,
            admission(cx_of(old(db)@, symbols@, *path, user, *params), role, member, admin, by),
        ),
{
    let grantor: usize = match by {
        Some(g) => g,
        None => user,
    };
    match find_missing_role(db, role, member, by) {
        Some(name) => {
            return Err(Fault::RoleMissing { name });
        },
        None => {},
    }
    if !admits(db, user, role) {
        return Err(Fault::NotSuperuser);
    }
    if db.belongs_to(role, member, db.members.len()) {
        return Err(Fault::RoleCycle { role, member });
    }
    match find_member(&db.members, role, member, grantor) {
        Some(i) => {
            let m: Member = db.members[i];
            let next: Member = Member {
                role: m.role,
                member: m.member,
                grantor: m.grantor,
                admin: m.admin || admin,
            };
            db.members.set(i, next);
        },
        None => {
            db.members.push(Member { role, member, grantor, admin });
        },
    }
    Ok(nothing())
}

/// Whether a membership is one that is to end.
pub open spec fn is_meant(m: Member, role: usize, member: usize, by: Option<usize>) -> bool {
    m.role == role && m.member == member && (by is None || by == Some(m.grantor))
}

/// The memberships without those that are to end or, with `admin`, with those having
/// no right to make others members.
pub open spec fn ended(
    ms: Seq<Member>,
    role: usize,
    member: usize,
    admin: bool,
    by: Option<usize>,
) -> Seq<Member>
    decreases ms.len(),
{
    if ms.len() == 0 {
        Seq::empty()
    } else {
        let before = ended(ms.drop_last(), role, member, admin, by);
        let m = ms.last();
        if !is_meant(m, role, member, by) {
            before.push(m)
        } else if admin {
            before.push(Member { admin: false, ..m })
        } else {
            before
        }
    }
}

/// `REVOKE` of a role from a role. Where the one who gave it is named, it has to have
/// given it.
pub open spec fn dismissal(
    cx: CxModel,
    role: usize,
    member: usize,
    admin: bool,
    by: Option<usize>,
) -> Result<Change, Fault> {
    match missing_role(cx.db, role, member, by) {
        Some(name) => Err(Fault::RoleMissing { name }),
        None => if !may_admit(cx.db, cx.user, role) {
            Err(Fault::NotSuperuser)
        } else {
            let ms = cx.db.members;
            match by {
                Some(g) if member_place(ms, role, member, g, 0) is None => Err(
                    Fault::NotMember { role, member, grantor: g },
                ),
                _ => Ok(
                    plain(DbModel { members: ended(ms, role, member, admin, by), ..cx.db }),
                ),
            }
        },
    }
}

fn do_dismiss(
    db: &mut Db,
    symbols: &Symbols,
    path: &Idents,
    user: usize,
    params: &Params,
    role: usize,
    member: usize,
    admin: bool,
    by: Option<usize>,
) -> (out: Result<Effect, Fault>)
    ensures
        effect_is(
            old(db)@,
            final(db)@,
            out,
            dismissal(cx_of(old(db)@, symbols@, *path, user, *params), role, member, admin, by),
        ),
{
    match find_missing_role(db, role, member, by) {
        Some(name) => {
            return Err(Fault::RoleMissing { name });
        },
        None => {},
    }
    if !admits(db, user, role) {
        return Err(Fault::NotSuperuser);
    }
    match by {
        Some(g) => if find_member(&db.members, role, member, g).is_none() {
            return Err(Fault::NotMember { role, member, grantor: g });
        },
        None => {},
    }
    let ghost ms = db.members@;
    let mut kept: Vec<Member> = Vec::new();
    let mut k: usize = 0;
    while k < db.members.len()
        invariant
            ms == db.members@,
            k <= db.members.len(),
            kept@ == ended(ms.take(k as int), role, member, admin, by),
        decreases db.members.len() - k,
    {
        assert(ms.take(k + 1).drop_last() =~= ms.take(k as int));
        let m: Member = db.members[k];
        let given: bool = match by {
            None => true,
            Some(g) => g == m.grantor,
        };
        if !(m.role == role && m.member == member && given) {
            kept.push(m);
        } else if admin {
            kept.push(
                Member { role: m.role, member: m.member, grantor: m.grantor, admin: false },
            );
        }
        k += 1;
    }
    assert(ms.take(k as int) =~= ms);
    db.members = kept;
    Ok(nothing())
}

/// A database without the tables of a role at places below `n`, and without the
/// privileges on them.
pub open spec fn without_owned(db: DbModel, role: usize, n: int) -> DbModel
    decreases n,
{
    if n <= 0 {
        db
    } else if db.tables[n - 1].owner == role {
        without_owned(without_table(db, n - 1), role, n - 1)
    } else {
        without_owned(db, role, n - 1)
    }
}

/// `DROP OWNED`: the tables of a role and its privileges go.
pub open spec fn owned_removal(cx: CxModel, role: usize) -> Result<Change, Fault> {
    if catalog::role_place(cx.db.roles, role, 0) is None {
        Err(Fault::RoleMissing { name: role })
    } else if !catalog::may_administer(cx.db.roles, cx.user) && role != cx.user {
        Err(Fault::NotSuperuser)
    } else {
        let db = without_owned(cx.db, role, cx.db.tables.len() as int);
        Ok(plain(DbModel { grants: catalog::without_role(db.grants, role), ..db }))
    }
}

/// A table, in other hands if it was in those of `from`.
pub open spec fn handed_over(t: TableModel, from: usize, to: usize) -> TableModel {
    if t.owner == from {
        TableModel { owner: to, ..t }
    } else {
        t
    }
}

/// `REASSIGN OWNED`: the tables of a role get another owner.
pub open spec fn reassignment(cx: CxModel, from: usize, to: usize) -> Result<Change, Fault> {
    if catalog::role_place(cx.db.roles, from, 0) is None {
        Err(Fault::RoleMissing { name: from })
    } else if catalog::role_place(cx.db.roles, to, 0) is None {
        Err(Fault::RoleMissing { name: to })
    } else if !catalog::may_administer(cx.db.roles, cx.user) {
        Err(Fault::NotSuperuser)
    } else {
        Ok(
            plain(
                DbModel {
                    tables: cx.db.tables.map_values(|t: TableModel| handed_over(t, from, to)),
                    ..cx.db
                },
            ),
        )
    }
}

/// The object that privileges are granted on, for someone who may grant them.
pub open spec fn grant_object(cx: CxModel, target: Target) -> Result<Object, Fault> {
    match target {
        Target::Table(n) => match catalog::resolved(cx.db.tables, cx.path, n) {
            None => Err(Fault::UndefinedTable { schema: n.schema, name: n.name }),
            Some(i) => if owns(cx, i) {
                Ok(Object::Table(cx.db.tables[i as int].schema, cx.db.tables[i as int].name))
            } else {
                Err(Fault::Denied { name: n.name })
            },
        },
        Target::Schema(s) => if !cx.db.schemas.contains(s) {
            Err(Fault::UndefinedSchema { name: s })
        } else if !catalog::may_administer(cx.db.roles, cx.user) {
            Err(Fault::NotSuperuser)
        } else {
            Ok(Object::Schema(s))
        },
    }
}

fn find_grant_object(cx: &Cx, target: Target) -> (r: Result<Object, Fault>)
    ensures
        r == grant_object(cx@, target),
{
    match target {
        Target::Table(n) => match cx.db.resolve(cx.path, n) {
            None => Err(Fault::UndefinedTable { schema: n.schema, name: n.name }),
            Some(i) => if cx.db.administers(cx.user) || cx.db.tables[i].owner == cx.user {
                Ok(Object::Table(cx.db.tables[i].schema, cx.db.tables[i].name))
            } else {
                Err(Fault::Denied { name: n.name })
            },
        },
        Target::Schema(s) => if !cx.db.has_schema(s) {
            Err(Fault::UndefinedSchema { name: s })
        } else if !cx.db.administers(cx.user) {
            Err(Fault::NotSuperuser)
        } else {
            Ok(Object::Schema(s))
        },
    }
}

/// The role that privileges are granted to.
pub open spec fn grant_role(cx: CxModel, g: Grantee) -> Result<usize, Fault> {
    match g {
        Grantee::CurrentUser => Ok(cx.user),
        Grantee::Role(name) => if catalog::role_place(cx.db.roles, name, 0) is Some {
            Ok(name)
        } else {
            Err(Fault::RoleMissing { name })
        },
    }
}

fn find_grant_role(cx: &Cx, g: Grantee) -> (r: Result<usize, Fault>)
    ensures
        r == grant_role(cx@, g),
{
    match g {
        Grantee::CurrentUser => Ok(cx.user),
        Grantee::Role(name) => if cx.db.role(name).is_some() {
            Ok(name)
        } else {
            Err(Fault::RoleMissing { name })
        },
    }
}

/// `GRANT` and, where `!give`, `REVOKE`.
pub open spec fn grant_change(
    cx: CxModel,
    give: bool,
    p: Privileges,
    target: Target,
    g: Grantee,
) -> Result<Change, Fault> {
    match grant_role(cx, g) {
        Err(f) => Err(f),
        Ok(role) => match grant_object(cx, target) {
            Err(f) => Err(f),
            Ok(object) => Ok(
                plain(
                    DbModel {
                        grants: if give {
                            catalog::granted(cx.db.grants, role, object, p)
                        } else {
                            catalog::revoked(cx.db.grants, role, object, p)
                        },
                        ..cx.db
                    },
                ),
            ),
        },
    }
}

/// The name under which a statement that changes rows is reported.
pub open spec fn row_tag(s: Stmt) -> Option<Tag> {
    match s {
        Stmt::Insert(_, _, _) => Some(Tag::Insert),
        Stmt::Upsert(_, _, _, _) => Some(Tag::Insert),
        Stmt::Update(_, _, _) => Some(Tag::Update),
        Stmt::Delete(_, _) => Some(Tag::Delete),
        _ => None,
    }
}

pub fn tag_of_rows(s: &Stmt) -> (r: Option<Tag>)
    ensures
        r == row_tag(*s),
{
    match s {
        Stmt::Insert(_, _, _) => Some(Tag::Insert),
        Stmt::Upsert(_, _, _, _) => Some(Tag::Insert),
        Stmt::Update(_, _, _) => Some(Tag::Update),
        Stmt::Delete(_, _) => Some(Tag::Delete),
        _ => None,
    }
}

/// What a statement that changes rows makes of a database.
pub open spec fn row_change(cx: CxModel, s: Stmt) -> Result<Change, Fault> {
    match s {
        Stmt::Insert(n, names, feed) => insertion(cx, n, *names, *feed),
        Stmt::Upsert(n, names, feed, action) => merging(cx, n, *names, *feed, *action),
        Stmt::Update(n, assigns, filter) => replacement(cx, n, *assigns, *filter),
        Stmt::Delete(n, filter) => removal(cx, n, *filter),
        _ => Ok(plain(cx.db)),
    }
}

/// The name under which a statement that changes a database is reported; nothing
/// for another statement.
pub open spec fn change_tag(s: Stmt) -> Option<Tag> {
    match s {
        Stmt::Insert(_, _, _) => Some(Tag::Insert),
        Stmt::Upsert(_, _, _, _) => Some(Tag::Insert),
        Stmt::Update(_, _, _) => Some(Tag::Update),
        Stmt::Delete(_, _) => Some(Tag::Delete),
        Stmt::Returning(s, _) => row_tag(*s),
        Stmt::Draw(_) => Some(Tag::Select),
        Stmt::CreateTable(_, _, _, _) => Some(Tag::CreateTable),
        Stmt::DropTable(_, _) => Some(Tag::DropTable),
        Stmt::AddColumn(_, _) => Some(Tag::AlterTable),
        Stmt::DropColumn(_, _, _) => Some(Tag::AlterTable),
        Stmt::CreateIndex(_, _) => Some(Tag::CreateIndex),
        Stmt::CreateSchema(_, _) => Some(Tag::CreateSchema),
        Stmt::DropSchema(_, _, _) => Some(Tag::DropSchema),
        Stmt::CreateSequence(_) => Some(Tag::CreateSequence),
        Stmt::DropSequence(_, _) => Some(Tag::DropSequence),
        Stmt::CreateRole(_, _) => Some(Tag::CreateRole),
        Stmt::AlterRole(_, _) => Some(Tag::AlterRole),
        Stmt::DropRole(_, _) => Some(Tag::DropRole),
        Stmt::DropOwned(_) => Some(Tag::DropOwned),
        Stmt::ReassignOwned(_, _) => Some(Tag::ReassignOwned),
        Stmt::Grant(_, _, _) => Some(Tag::Grant),
        Stmt::GrantRole(_, _, _, _) => Some(Tag::GrantRole),
        Stmt::RevokeRole(_, _, _, _) => Some(Tag::RevokeRole),
        Stmt::Revoke(_, _, _) => Some(Tag::Revoke),
        _ => None,
    }
}

/// The name under which a statement that changes a database is reported.
pub fn tag_of_change(s: &Stmt) -> (r: Option<Tag>)
    ensures
        r == change_tag(*s),
{
    match s {
        Stmt::Insert(_, _, _) => Some(Tag::Insert),
        Stmt::Upsert(_, _, _, _) => Some(Tag::Insert),
        Stmt::Update(_, _, _) => Some(Tag::Update),
        Stmt::Delete(_, _) => Some(Tag::Delete),
        Stmt::Returning(s, _) => tag_of_rows(s),
        Stmt::Draw(_) => Some(Tag::Select),
        Stmt::CreateTable(_, _, _, _) => Some(Tag::CreateTable),
        Stmt::DropTable(_, _) => Some(Tag::DropTable),
        Stmt::AddColumn(_, _) => Some(Tag::AlterTable),
        Stmt::DropColumn(_, _, _) => Some(Tag::AlterTable),
        Stmt::CreateIndex(_, _) => Some(Tag::CreateIndex),
        Stmt::CreateSchema(_, _) => Some(Tag::CreateSchema),
        Stmt::DropSchema(_, _, _) => Some(Tag::DropSchema),
        Stmt::CreateSequence(_) => Some(Tag::CreateSequence),
        Stmt::DropSequence(_, _) => Some(Tag::DropSequence),
        Stmt::CreateRole(_, _) => Some(Tag::CreateRole),
        Stmt::AlterRole(_, _) => Some(Tag::AlterRole),
        Stmt::DropRole(_, _) => Some(Tag::DropRole),
        Stmt::DropOwned(_) => Some(Tag::DropOwned),
        Stmt::ReassignOwned(_, _) => Some(Tag::ReassignOwned),
        Stmt::Grant(_, _, _) => Some(Tag::Grant),
        Stmt::GrantRole(_, _, _, _) => Some(Tag::GrantRole),
        Stmt::RevokeRole(_, _, _, _) => Some(Tag::RevokeRole),
        Stmt::Revoke(_, _, _) => Some(Tag::Revoke),
        _ => None,
    }
}

/// What a statement makes of a database; a statement that changes none leaves it
/// as it is.
#[verifier::opaque]
pub open spec fn changed(cx: CxModel, c: SecurityConfig, s: Stmt) -> Result<Change, Fault> {
    match s {
        Stmt::Insert(n, names, feed) => insertion(cx, n, *names, *feed),
        Stmt::Upsert(n, names, feed, action) => merging(cx, n, *names, *feed, *action),
        Stmt::Update(n, assigns, filter) => replacement(cx, n, *assigns, *filter),
        Stmt::Delete(n, filter) => removal(cx, n, *filter),
        Stmt::Returning(s, _) => row_change(cx, *s),
        Stmt::Draw(items) => drawing(cx, *items),
        Stmt::CreateTable(n, quiet, cs, parent) => table_creation(cx, n, quiet, *cs, parent),
        Stmt::DropTable(n, quiet) => table_removal(cx, n, quiet),
        Stmt::AddColumn(n, c) => column_addition(cx, n, c),
        Stmt::DropColumn(n, name, quiet) => column_removal(cx, n, name, quiet),
        Stmt::CreateIndex(n, names) => index_creation(cx, n, *names),
        Stmt::CreateSchema(name, tables) => schema_creation(cx, name, *tables),
        Stmt::DropSchema(name, quiet, cascade) => schema_removal(cx, name, quiet, cascade),
        Stmt::CreateSequence(n) => sequence_creation(cx, n),
        Stmt::DropSequence(n, quiet) => sequence_removal(cx, n, quiet),
        Stmt::CreateRole(name, o) => role_creation(cx, c, name, o),
        Stmt::AlterRole(name, o) => role_alteration(cx, c, name, o),
        Stmt::DropRole(name, quiet) => role_removal(cx, name, quiet),
        Stmt::DropOwned(role) => owned_removal(cx, role),
        Stmt::ReassignOwned(from, to) => reassignment(cx, from, to),
        Stmt::GrantRole(role, member, admin, by) => admission(cx, role, member, admin, by),
        Stmt::RevokeRole(role, member, admin, by) => dismissal(cx, role, member, admin, by),
        Stmt::Grant(p, target, g) => grant_change(cx, true, p, target, g),
        Stmt::Revoke(p, target, g) => grant_change(cx, false, p, target, g),
        _ => Ok(plain(cx.db)),
    }
}

/// The model of what a statement runs against.
pub open spec fn cx_of(
    db: DbModel,
    symbols: Seq<Seq<char>>,
    path: Idents,
    user: usize,
    params: Params,
) -> CxModel {
    CxModel { db, symbols, path, user, params, named: NamedModel::Nil }
}

fn do_insert(
    db: &mut Db,
    symbols: &Symbols,
    path: &Idents,
    user: usize,
    params: &Params,
    n: Name,
    names: &Idents,
    feed: &Feed,
) -> (out: Result<Effect, Fault>)
    ensures
        effect_is(
            old(db)@,
            final(db)@,
            out,
            insertion(cx_of(old(db)@, symbols@, *path, user, *params), n, *names, *feed),
        ),
{
    let want: Privileges = to_insert();
    let cx: Cx = Cx { db: &*db, symbols, path, user, params, named: &Named::Nil };
    let i: usize = find_open_table(&cx, n, want)?;
    let before: usize = db.tables[i].rows.len();
    let (rows, left): (Vec<Tuple>, Draws) = dml::insert(&cx, &db.tables[i], names, feed)?;
    proof {
        dml::lemma_inserted_len(cx@, db@.tables[i as int], *names, *feed);
    }
    let count: u64 = (rows.len() - before) as u64;
    set_rows(db, i, rows);
    db.draws = left;
    Ok(Effect { count, notices: Vec::new() })
}

fn do_upsert(
    db: &mut Db,
    symbols: &Symbols,
    path: &Idents,
    user: usize,
    params: &Params,
    n: Name,
    names: &Idents,
    feed: &Feed,
    action: &Conflict,
) -> (out: Result<Effect, Fault>)
    ensures
        effect_is(
            old(db)@,
            final(db)@,
            out,
            merging(
                cx_of(old(db)@, symbols@, *path, user, *params),
                n,
                *names,
                *feed,
                *action,
            ),
        ),
{
    let cx: Cx = Cx { db: &*db, symbols, path, user, params, named: &Named::Nil };
    let i: usize = find_open_table(&cx, n, to_upsert(action))?;
    let (rows, touched, left): (Vec<Tuple>, Vec<Tuple>, Draws) = upsert::upsert(
        &cx,
        &db.tables[i],
        names,
        feed,
        action,
    )?;
    set_rows(db, i, rows);
    db.draws = left;
    Ok(Effect { count: touched.len() as u64, notices: Vec::new() })
}

fn do_update(
    db: &mut Db,
    symbols: &Symbols,
    path: &Idents,
    user: usize,
    params: &Params,
    n: Name,
    assigns: &Assigns,
    filter: &Expr,
) -> (out: Result<Effect, Fault>)
    ensures
        effect_is(
            old(db)@,
            final(db)@,
            out,
            replacement(cx_of(old(db)@, symbols@, *path, user, *params), n, *assigns, *filter),
        ),
{
    let want: Privileges = to_update();
    let cx: Cx = Cx { db: &*db, symbols, path, user, params, named: &Named::Nil };
    let i: usize = find_open_table(&cx, n, want)?;
    let done: Outcome = dml::update(&cx, &db.tables[i], assigns, filter)?;
    set_rows(db, i, done.rows);
    db.draws = done.left;
    Ok(Effect { count: done.count, notices: Vec::new() })
}

fn do_draw(
    db: &mut Db,
    symbols: &Symbols,
    path: &Idents,
    user: usize,
    params: &Params,
    items: &Items,
) -> (out: Result<Effect, Fault>)
    ensures
        effect_is(
            old(db)@,
            final(db)@,
            out,
            drawing(cx_of(old(db)@, symbols@, *path, user, *params), *items),
        ),
{
    let cx: Cx = Cx { db: &*db, symbols, path, user, params, named: &Named::Nil };
    let c: Cells = dml::write_item_cells(&cx, items, &db.draws)?;
    db.draws = c.left;
    Ok(nothing())
}

fn do_delete(
    db: &mut Db,
    symbols: &Symbols,
    path: &Idents,
    user: usize,
    params: &Params,
    n: Name,
    filter: &Expr,
) -> (out: Result<Effect, Fault>)
    ensures
        effect_is(
            old(db)@,
            final(db)@,
            out,
            removal(cx_of(old(db)@, symbols@, *path, user, *params), n, *filter),
        ),
{
    let want: Privileges = to_delete();
    let cx: Cx = Cx { db: &*db, symbols, path, user, params, named: &Named::Nil };
    let i: usize = find_open_table(&cx, n, want)?;
    let done: Outcome = dml::delete(&cx, &db.tables[i], filter)?;
    set_rows(db, i, done.rows);
    Ok(Effect { count: done.count, notices: Vec::new() })
}

fn do_create_table(
    db: &mut Db,
    symbols: &Symbols,
    path: &Idents,
    user: usize,
    params: &Params,
    n: Name,
    quiet: bool,
    cs: &Columns,
    parent: Option<Name>,
) -> (out: Result<Effect, Fault>)
    ensures
        effect_is(
            old(db)@,
            final(db)@,
            out,
            table_creation(cx_of(old(db)@, symbols@, *path, user, *params), n, quiet, *cs, parent),
        ),
{
    let cx: Cx = Cx { db: &*db, symbols, path, user, params, named: &Named::Nil };
    let schema: usize = schema_of_new(&cx, n)?;
    if db.table(schema, n.name).is_some() {
        return if quiet {
            Ok(nothing())
        } else {
            Err(Fault::DuplicateTable { name: n.name })
        };
    }
    match find_repeated(cs) {
        Some(name) => {
            return Err(Fault::DuplicateColumn { name });
        },
        None => {},
    }
    match parent {
        None => {
            add_table(db, schema, n.name, user, cs.copy());
            Ok(nothing())
        },
        Some(p) => match db.resolve(path, p) {
            None => Err(Fault::UndefinedTable { schema: p.schema, name: p.name }),
            Some(i) => {
                let ps: Columns = db.tables[i].columns.copy();
                let own: Columns = find_own_columns(&ps, cs)?;
                let notices: Vec<Notice> = note_merges(&ps, cs, Vec::new());
                let all: Columns = append_columns(&ps, own);
                add_table(db, schema, n.name, user, all);
                Ok(Effect { count: 0, notices })
            },
        },
    }
}

fn append_columns(a: &Columns, b: Columns) -> (r: Columns)
    ensures
        r == catalog::columns_append(*a, b),
    decreases a,
{
    match a {
        Columns::Nil => b,
        Columns::Cons(c, rest) => Columns::Cons(*c, Box::new(append_columns(rest, b))),
    }
}

fn do_drop_table(
    db: &mut Db,
    symbols: &Symbols,
    path: &Idents,
    user: usize,
    params: &Params,
    n: Name,
    quiet: bool,
) -> (out: Result<Effect, Fault>)
    ensures
        effect_is(
            old(db)@,
            final(db)@,
            out,
            table_removal(cx_of(old(db)@, symbols@, *path, user, *params), n, quiet),
        ),
{
    match db.resolve(path, n) {
        None => if quiet {
            Ok(nothing())
        } else {
            Err(Fault::UndefinedTable { schema: n.schema, name: n.name })
        },
        Some(i) => if db.administers(user) || db.tables[i].owner == user {
            remove_table(db, i);
            Ok(nothing())
        } else {
            Err(Fault::Denied { name: n.name })
        },
    }
}

fn do_add_column(
    db: &mut Db,
    symbols: &Symbols,
    path: &Idents,
    user: usize,
    params: &Params,
    n: Name,
    c: Column,
) -> (out: Result<Effect, Fault>)
    ensures
        effect_is(
            old(db)@,
            final(db)@,
            out,
            column_addition(cx_of(old(db)@, symbols@, *path, user, *params), n, c),
        ),
{
    let cx: Cx = Cx { db: &*db, symbols, path, user, params, named: &Named::Nil };
    let i: usize = find_owned_table(&cx, n)?;
    if db.tables[i].columns.named(c.name).is_some() {
        return Err(Fault::DuplicateColumn { name: c.name });
    }
    if matches!(c.filler, Filler::Next(_)) {
        return Err(Fault::MisplacedDraw);
    }
    let loose: Column = Column { not_null: false, ..c };
    let d: Datum = dml::write_stored_value(symbols, loose, dml::write_filler_of(c))?;
    let last: Columns = Columns::Cons(c, Box::new(Columns::Nil));
    let columns: Columns = append_columns(&db.tables[i].columns, last);
    let wide: Vec<Tuple> = widen(&db.tables[i].rows, d);
    let rows: Vec<Tuple> = dml::write_place_rows(&columns, Vec::new(), &wide)?;
    set_shape(db, i, columns, rows);
    Ok(nothing())
}

fn do_drop_column(
    db: &mut Db,
    symbols: &Symbols,
    path: &Idents,
    user: usize,
    params: &Params,
    n: Name,
    name: usize,
    quiet: bool,
) -> (out: Result<Effect, Fault>)
    ensures
        effect_is(
            old(db)@,
            final(db)@,
            out,
            column_removal(cx_of(old(db)@, symbols@, *path, user, *params), n, name, quiet),
        ),
{
    let cx: Cx = Cx { db: &*db, symbols, path, user, params, named: &Named::Nil };
    let i: usize = find_owned_table(&cx, n)?;
    match db.tables[i].columns.named(name) {
        None => if quiet {
            Ok(nothing())
        } else {
            Err(Fault::UndefinedColumn { table: Some(n.name), name })
        },
        Some(_) => {
            let columns: Columns = remove_column(&db.tables[i].columns, name);
            let rows: Vec<Tuple> = narrow(&db.tables[i].columns, &db.tables[i].rows, name);
            set_shape(db, i, columns, rows);
            Ok(nothing())
        },
    }
}

fn do_create_role(
    db: &mut Db,
    symbols: &Symbols,
    path: &Idents,
    user: usize,
    params: &Params,
    config: &SecurityConfig,
    name: usize,
    o: RoleOptions,
) -> (out: Result<Effect, Fault>)
    ensures
        effect_is(
            old(db)@,
            final(db)@,
            out,
            role_creation(cx_of(old(db)@, symbols@, *path, user, *params), *config, name, o),
        ),
{
    if !db.administers(user) {
        return Err(Fault::NotSuperuser);
    }
    if db.role(name).is_some() {
        return Err(Fault::RoleExists { name });
    }
    match check_options(symbols, config, name, o) {
        Some(f) => Err(f),
        None => {
            let role: Role = Role { name, superuser: false, login: false, password: None };
            db.roles.push(set_options(role, o));
            Ok(nothing())
        },
    }
}

fn do_alter_role(
    db: &mut Db,
    symbols: &Symbols,
    path: &Idents,
    user: usize,
    params: &Params,
    config: &SecurityConfig,
    name: usize,
    o: RoleOptions,
) -> (out: Result<Effect, Fault>)
    ensures
        effect_is(
            old(db)@,
            final(db)@,
            out,
            role_alteration(cx_of(old(db)@, symbols@, *path, user, *params), *config, name, o),
        ),
{
    if !db.administers(user) {
        return Err(Fault::NotSuperuser);
    }
    match db.role(name) {
        None => Err(Fault::RoleMissing { name }),
        Some(i) => match check_options(symbols, config, name, o) {
            Some(f) => Err(f),
            None => {
                let role: Role = set_options(db.roles[i], o);
                db.roles.set(i, role);
                Ok(nothing())
            },
        },
    }
}

fn do_drop_role(
    db: &mut Db,
    symbols: &Symbols,
    path: &Idents,
    user: usize,
    params: &Params,
    name: usize,
    quiet: bool,
) -> (out: Result<Effect, Fault>)
    ensures
        effect_is(
            old(db)@,
            final(db)@,
            out,
            role_removal(cx_of(old(db)@, symbols@, *path, user, *params), name, quiet),
        ),
{
    if !db.administers(user) {
        return Err(Fault::NotSuperuser);
    }
    match db.role(name) {
        None => if quiet {
            Ok(nothing())
        } else {
            Err(Fault::RoleMissing { name })
        },
        Some(i) => {
            db.drop_role(i);
            Ok(nothing())
        },
    }
}

fn remove_owned(db: &mut Db, role: usize)
    ensures
        final(db)@ == without_owned(old(db)@, role, old(db)@.tables.len() as int),
{
    let ghost goal = without_owned(db@, role, db@.tables.len() as int);
    let mut n: usize = db.tables.len();
    while 0 < n
        invariant
            n <= db.tables.len(),
            goal == without_owned(db@, role, n as int),
        decreases n,
    {
        let ghost before = db@;
        assert(before.tables.len() == db.tables.len());
        if db.tables[n - 1].owner == role {
            remove_table(db, n - 1);
            assert(db@.tables.len() == before.tables.len() - 1);
            assert(db@.tables.len() == db.tables.len());
        }
        n -= 1;
    }
}

fn do_drop_owned(
    db: &mut Db,
    symbols: &Symbols,
    path: &Idents,
    user: usize,
    params: &Params,
    role: usize,
) -> (out: Result<Effect, Fault>)
    ensures
        effect_is(
            old(db)@,
            final(db)@,
            out,
            owned_removal(cx_of(old(db)@, symbols@, *path, user, *params), role),
        ),
{
    match db.role(role) {
        None => Err(Fault::RoleMissing { name: role }),
        Some(_) => if !db.administers(user) && role != user {
            Err(Fault::NotSuperuser)
        } else {
            remove_owned(db, role);
            db.forget_role(role);
            Ok(nothing())
        },
    }
}

fn do_reassign(
    db: &mut Db,
    symbols: &Symbols,
    path: &Idents,
    user: usize,
    params: &Params,
    from: usize,
    to: usize,
) -> (out: Result<Effect, Fault>)
    ensures
        effect_is(
            old(db)@,
            final(db)@,
            out,
            reassignment(cx_of(old(db)@, symbols@, *path, user, *params), from, to),
        ),
{
    if db.role(from).is_none() {
        return Err(Fault::RoleMissing { name: from });
    }
    if db.role(to).is_none() {
        return Err(Fault::RoleMissing { name: to });
    }
    if !db.administers(user) {
        return Err(Fault::NotSuperuser);
    }
    let ghost before = db@.tables;
    let ghost all = db@;
    let mut i: usize = 0;
    while i < db.tables.len()
        invariant
            i <= db.tables.len(),
            db.tables.len() == before.len(),
            db@ == (DbModel { tables: db@.tables, ..all }),
            forall|k: int|
                0 <= k < i ==> #[trigger] db@.tables[k] == handed_over(before[k], from, to),
            forall|k: int| i <= k < before.len() ==> #[trigger] db@.tables[k] == before[k],
        decreases db.tables.len() - i,
    {
        let ghost now = db@.tables;
        assert(now[i as int] == before[i as int]);
        if db.tables[i].owner == from {
            let mut t: Table = db.tables.remove(i);
            t.owner = to;
            db.tables.insert(i, t);
        }
        assert(db@.tables =~= now.update(i as int, handed_over(before[i as int], from, to)));
        i += 1;
    }
    assert(db@.tables =~= before.map_values(|t: TableModel| handed_over(t, from, to)));
    Ok(nothing())
}

fn do_grant(
    db: &mut Db,
    symbols: &Symbols,
    path: &Idents,
    user: usize,
    params: &Params,
    give: bool,
    p: Privileges,
    target: Target,
    g: Grantee,
) -> (out: Result<Effect, Fault>)
    ensures
        effect_is(
            old(db)@,
            final(db)@,
            out,
            grant_change(cx_of(old(db)@, symbols@, *path, user, *params), give, p, target, g),
        ),
{
    let cx: Cx = Cx { db: &*db, symbols, path, user, params, named: &Named::Nil };
    let role: usize = find_grant_role(&cx, g)?;
    let object: Object = find_grant_object(&cx, target)?;
    if give {
        db.grant(role, object, p);
    } else {
        db.revoke(role, object, p);
    }
    Ok(nothing())
}

fn do_sequence(
    db: &mut Db,
    symbols: &Symbols,
    path: &Idents,
    user: usize,
    params: &Params,
    n: Name,
) -> (out: Result<Effect, Fault>)
    ensures
        effect_is(
            old(db)@,
            final(db)@,
            out,
            sequence_creation(cx_of(old(db)@, symbols@, *path, user, *params), n),
        ),
{
    let cx: Cx = Cx { db: &*db, symbols, path, user, params, named: &Named::Nil };
    let schema: usize = schema_of_new(&cx, n)?;
    let s: Sequence = Sequence { schema, name: n.name };
    if db.sequence(s).is_some() {
        Err(Fault::DuplicateTable { name: n.name })
    } else {
        db.sequences.push(s);
        Ok(nothing())
    }
}

fn create_tables(
    db: &mut Db,
    symbols: &Symbols,
    path: &Idents,
    user: usize,
    params: &Params,
    schema: usize,
    tables: &TableDefs,
    said: Vec<Notice>,
) -> (out: Result<Effect, Fault>)
    ensures
        match (
            out,
            tables_creation(
                cx_of(old(db)@, symbols@, *path, user, *params),
                schema,
                *tables,
                said@,
            ),
        ) {
            (Ok(e), Ok(c)) => final(db)@ == c.db && e.count == c.count && e.notices@ == c.notices,
            (Err(f), Err(g)) => f == g,
            _ => false,
        },
    decreases tables,
{
    match tables {
        TableDefs::Nil => Ok(Effect { count: 0, notices: said }),
        TableDefs::Cons(n, quiet, cs, parent, rest) => {
            let stated: usize = match n.schema {
                Some(x) => x,
                None => schema,
            };
            if stated != schema {
                return Err(Fault::SchemaMismatch { stated, made: schema });
            }
            let at: Name = Name { schema: Some(schema), name: n.name };
            let mut e: Effect = do_create_table(
                db,
                symbols,
                path,
                user,
                params,
                at,
                *quiet,
                cs,
                *parent,
            )?;
            let mut all: Vec<Notice> = said;
            all.append(&mut e.notices);
            create_tables(db, symbols, path, user, params, schema, rest, all)
        },
    }
}

fn do_create_schema(
    db: &mut Db,
    symbols: &Symbols,
    path: &Idents,
    user: usize,
    params: &Params,
    given: Option<usize>,
    tables: &TableDefs,
) -> (out: Result<Effect, Fault>)
    ensures
        effect_is(
            old(db)@,
            final(db)@,
            out,
            schema_creation(cx_of(old(db)@, symbols@, *path, user, *params), given, *tables),
        ),
{
    let name: usize = match given {
        Some(n) => n,
        None => user,
    };
    if !db.administers(user) {
        return Err(Fault::NotSuperuser);
    }
    if db.has_schema(name) {
        return Err(Fault::DuplicateSchema { name });
    }
    let mut next: Db = db.copy();
    next.schemas.push(name);
    let e: Effect = create_tables(
        &mut next,
        symbols,
        path,
        user,
        params,
        name,
        tables,
        Vec::new(),
    )?;
    *db = next;
    Ok(e)
}

fn remove_tables_in(db: &mut Db, schema: usize)
    ensures
        final(db)@ == without_tables_in(old(db)@, schema, old(db)@.tables.len() as int),
{
    let ghost goal = without_tables_in(db@, schema, db@.tables.len() as int);
    let mut n: usize = db.tables.len();
    while 0 < n
        invariant
            n <= db.tables.len(),
            goal == without_tables_in(db@, schema, n as int),
        decreases n,
    {
        let ghost before = db@;
        assert(before.tables.len() == db.tables.len());
        if db.tables[n - 1].schema == schema {
            remove_table(db, n - 1);
            assert(db@.tables.len() == before.tables.len() - 1);
            assert(db@.tables.len() == db.tables.len());
        }
        n -= 1;
    }
}

fn keep_sequences_outside(ss: &Vec<Sequence>, schema: usize) -> (r: Vec<Sequence>)
    ensures
        r@ == sequences_outside(ss@, schema),
{
    let mut kept: Vec<Sequence> = Vec::new();
    let mut k: usize = 0;
    while k < ss.len()
        invariant
            k <= ss.len(),
            kept@ == sequences_outside(ss@.take(k as int), schema),
        decreases ss.len() - k,
    {
        assert(ss@.take(k + 1).drop_last() =~= ss@.take(k as int));
        if ss[k].schema != schema {
            kept.push(ss[k]);
        }
        k += 1;
    }
    assert(ss@.take(k as int) =~= ss@);
    kept
}

fn find_schema(schemas: &Vec<usize>, name: usize) -> (r: Option<usize>)
    ensures
        match r {
            Some(i) => i < schemas.len() && schema_place(schemas@, name, 0) == Some(i as int),
            None => schema_place(schemas@, name, 0) is None,
        },
{
    let mut i: usize = 0;
    while i < schemas.len()
        invariant
            i <= schemas.len(),
            schema_place(schemas@, name, 0) == schema_place(schemas@, name, i as int),
        decreases schemas.len() - i,
    {
        if schemas[i] == name {
            return Some(i);
        }
        i += 1;
    }
    None
}

fn do_drop_schema(
    db: &mut Db,
    symbols: &Symbols,
    path: &Idents,
    user: usize,
    params: &Params,
    name: usize,
    quiet: bool,
    cascade: bool,
) -> (out: Result<Effect, Fault>)
    ensures
        effect_is(
            old(db)@,
            final(db)@,
            out,
            schema_removal(cx_of(old(db)@, symbols@, *path, user, *params), name, quiet, cascade),
        ),
{
    if !db.administers(user) {
        return Err(Fault::NotSuperuser);
    }
    match find_schema(&db.schemas, name) {
        None => if quiet {
            Ok(nothing())
        } else {
            Err(Fault::UndefinedSchema { name })
        },
        Some(i) => {
            let mut bare: Db = db.copy();
            remove_tables_in(&mut bare, name);
            let sequences: Vec<Sequence> = keep_sequences_outside(&db.sequences, name);
            proof {
                lemma_schemas_stay(db@, name, db@.tables.len() as int);
            }
            assert(bare@.tables.len() == bare.tables.len());
            assert(db@.tables.len() == db.tables.len());
            if !cascade && (bare.tables.len() < db.tables.len() || sequences.len()
                < db.sequences.len()) {
                Err(Fault::SchemaInUse { name })
            } else {
                bare.schemas.remove(i);
                bare.sequences = sequences;
                let draws: Draws = bare.draws.outside(name);
                bare.draws = draws;
                let kept: Vec<Grant> = forget_object(&bare.grants, Object::Schema(name));
                bare.grants = kept;
                *db = bare;
                Ok(nothing())
            }
        },
    }
}

proof fn lemma_schemas_stay(db: DbModel, schema: usize, n: int)
    ensures
        without_tables_in(db, schema, n).schemas == db.schemas,
        without_tables_in(db, schema, n).draws == db.draws,
    decreases n,
{
    if n > 0 {
        if db.tables[n - 1].schema == schema {
            lemma_schemas_stay(without_table(db, n - 1), schema, n - 1);
        } else {
            lemma_schemas_stay(db, schema, n - 1);
        }
    }
}

fn do_small(
    db: &mut Db,
    symbols: &Symbols,
    path: &Idents,
    user: usize,
    params: &Params,
    config: &SecurityConfig,
    s: &Stmt,
) -> (out: Result<Effect, Fault>)
    requires
        s is CreateIndex || s is DropSequence || change_tag(*s) is None,
    ensures
        effect_is(
            old(db)@,
            final(db)@,
            out,
            changed(cx_of(old(db)@, symbols@, *path, user, *params), *config, *s),
        ),
{
    proof {
        reveal(changed);
    }
    match s {
        Stmt::CreateIndex(n, names) => match db.resolve(path, *n) {
            None => Err(Fault::UndefinedTable { schema: n.schema, name: n.name }),
            Some(i) => match find_unknown_column(&db.tables[i].columns, names) {
                Some(name) => Err(Fault::UndefinedColumn { table: Some(n.name), name }),
                None => Ok(nothing()),
            },
        },
        Stmt::DropSequence(n, quiet) => match db.resolve_sequence(path, *n) {
            None => if *quiet {
                Ok(nothing())
            } else {
                Err(Fault::UndefinedSequence { name: n.name })
            },
            Some(i) => {
                let s: Sequence = db.sequences.remove(i);
                let draws: Draws = db.draws.without(s);
                db.draws = draws;
                Ok(nothing())
            },
        },
        _ => Ok(nothing()),
    }
}

/// Applies a statement to a database. If it fails, the database stays as it was.
pub fn apply(
    db: &mut Db,
    symbols: &Symbols,
    path: &Idents,
    user: usize,
    params: &Params,
    config: &SecurityConfig,
    s: &Stmt,
) -> (out: Result<Effect, Fault>)
    ensures
        effect_is(
            old(db)@,
            final(db)@,
            out,
            changed(cx_of(old(db)@, symbols@, *path, user, *params), *config, *s),
        ),
{
    proof {
        reveal(changed);
    }
    match s {
        Stmt::Insert(n, names, feed) => do_insert(db, symbols, path, user, params, *n, names, feed),
        Stmt::Upsert(n, names, feed, action) => do_upsert(
            db,
            symbols,
            path,
            user,
            params,
            *n,
            names,
            feed,
            action,
        ),
        Stmt::Update(n, assigns, filter) => do_update(
            db,
            symbols,
            path,
            user,
            params,
            *n,
            assigns,
            filter,
        ),
        Stmt::Delete(n, filter) => do_delete(db, symbols, path, user, params, *n, filter),
        Stmt::Draw(items) => do_draw(db, symbols, path, user, params, items),
        Stmt::Returning(s, _) => match &**s {
            Stmt::Insert(n, names, feed) => do_insert(
                db,
                symbols,
                path,
                user,
                params,
                *n,
                names,
                feed,
            ),
            Stmt::Upsert(n, names, feed, action) => do_upsert(
                db,
                symbols,
                path,
                user,
                params,
                *n,
                names,
                feed,
                action,
            ),
            Stmt::Update(n, assigns, filter) => do_update(
                db,
                symbols,
                path,
                user,
                params,
                *n,
                assigns,
                filter,
            ),
            Stmt::Delete(n, filter) => do_delete(db, symbols, path, user, params, *n, filter),
            _ => Ok(nothing()),
        },
        Stmt::CreateTable(n, quiet, cs, parent) => do_create_table(
            db,
            symbols,
            path,
            user,
            params,
            *n,
            *quiet,
            cs,
            *parent,
        ),
        Stmt::DropTable(n, quiet) => do_drop_table(db, symbols, path, user, params, *n, *quiet),
        Stmt::AddColumn(n, c) => do_add_column(db, symbols, path, user, params, *n, *c),
        Stmt::DropColumn(n, name, quiet) => do_drop_column(
            db,
            symbols,
            path,
            user,
            params,
            *n,
            *name,
            *quiet,
        ),
        Stmt::CreateSchema(name, tables) => do_create_schema(
            db,
            symbols,
            path,
            user,
            params,
            *name,
            tables,
        ),
        Stmt::DropSchema(name, quiet, cascade) => do_drop_schema(
            db,
            symbols,
            path,
            user,
            params,
            *name,
            *quiet,
            *cascade,
        ),
        Stmt::CreateSequence(n) => do_sequence(db, symbols, path, user, params, *n),
        Stmt::CreateRole(name, o) => do_create_role(
            db,
            symbols,
            path,
            user,
            params,
            config,
            *name,
            *o,
        ),
        Stmt::AlterRole(name, o) => do_alter_role(
            db,
            symbols,
            path,
            user,
            params,
            config,
            *name,
            *o,
        ),
        Stmt::DropRole(name, quiet) => do_drop_role(db, symbols, path, user, params, *name, *quiet),
        Stmt::DropOwned(role) => do_drop_owned(db, symbols, path, user, params, *role),
        Stmt::ReassignOwned(from, to) => do_reassign(db, symbols, path, user, params, *from, *to),
        Stmt::GrantRole(role, member, admin, by) => do_admit(
            db,
            symbols,
            path,
            user,
            params,
            *role,
            *member,
            *admin,
            *by,
        ),
        Stmt::RevokeRole(role, member, admin, by) => do_dismiss(
            db,
            symbols,
            path,
            user,
            params,
            *role,
            *member,
            *admin,
            *by,
        ),
        Stmt::Grant(p, target, g) => do_grant(
            db,
            symbols,
            path,
            user,
            params,
            true,
            *p,
            *target,
            *g,
        ),
        Stmt::Revoke(p, target, g) => do_grant(
            db,
            symbols,
            path,
            user,
            params,
            false,
            *p,
            *target,
            *g,
        ),
        _ => do_small(db, symbols, path, user, params, config, s),
    }
}

} // verus!
