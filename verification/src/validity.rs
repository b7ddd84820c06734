//! What holds of every state of a database, whatever statements were executed.

use vstd::prelude::*;
use crate::analyze::CxModel;
use crate::ast::Assigns;
use crate::ast::Column;
use crate::ast::Columns;
use crate::ast::Conflict;
use crate::ast::Expr;
use crate::ast::Feed;
use crate::ast::Idents;
use crate::ast::Name;
use crate::ast::Stmt;
use crate::ast::TableDefs;
use crate::catalog;
use crate::catalog::DbModel;
use crate::catalog::Draws;
use crate::catalog::Role;
use crate::catalog::Sequence;
use crate::catalog::TableModel;
use crate::change;
use crate::datum;
use crate::datum::DataType;
use crate::datum::Datum;
use crate::datum::Tuple;
use crate::dml;
use crate::dml::Changed;
use crate::dml::Fed;
use crate::eval;
use crate::fields;
use crate::fields::Env;
use crate::fields::Fields;
use crate::notice::Notice;
use crate::security::SecurityConfig;
use crate::symbols;
use crate::upsert;
use crate::upsert::Upserted;

verus! {

/// Whether a value can stand in a column of a type. Null can stand in any.
pub open spec fn is_of(d: Datum, ty: DataType) -> bool {
    match d {
        Datum::Null => true,
        Datum::Int(_) => ty == DataType::Int,
        Datum::Big(_) => ty == DataType::BigInt,
        Datum::Bool(_) => ty == DataType::Boolean,
        Datum::Text(_) => ty == DataType::Text,
    }
}

/// Whether a row has one value for each column, of the type of the column.
pub open spec fn row_fits(cs: Columns, row: Tuple) -> bool
    decreases cs,
{
    match (cs, row) {
        (Columns::Nil, Tuple::Nil) => true,
        (Columns::Cons(c, more), Tuple::Cons(d, rest)) => is_of(d, c.ty) && row_fits(*more, *rest),
        _ => false,
    }
}

/// Whether a row has a value in every column that asks for one.
pub open spec fn row_is_full(cs: Columns, row: Tuple) -> bool
    decreases cs,
{
    match (cs, row) {
        (Columns::Cons(c, more), Tuple::Cons(d, rest)) => {
            &&& c.not_null ==> d != Datum::Null
            &&& row_is_full(*more, *rest)
        },
        _ => true,
    }
}

/// Whether all of some rows fit their columns.
pub open spec fn rows_fit(cs: Columns, rows: Seq<Tuple>) -> bool {
    forall|i: int| 0 <= i < rows.len() ==> row_fits(cs, #[trigger] rows[i])
}

/// Whether a table is sound: its columns have different names, its rows fit them,
/// and no two rows agree in a unique column.
pub open spec fn table_ok(t: TableModel) -> bool {
    &&& change::repeated(t.columns) is None
    &&& rows_fit(t.columns, t.rows)
    &&& dml::all_unique(t.columns, t.rows)
}

/// Whether no two tables have the same name in the same schema.
pub open spec fn tables_differ(ts: Seq<TableModel>) -> bool {
    forall|i: int, j: int|
        0 <= i < j < ts.len() ==> (#[trigger] ts[i]).schema != (#[trigger] ts[j]).schema
            || ts[i].name != ts[j].name
}

/// Whether no two roles have the same name.
pub open spec fn roles_differ(rs: Seq<Role>) -> bool {
    forall|i: int, j: int|
        0 <= i < j < rs.len() ==> (#[trigger] rs[i]).name != (#[trigger] rs[j]).name
}

/// Whether a database is sound: its tables are, each in a schema that there is, and
/// nothing is there twice.
pub open spec fn db_ok(db: DbModel) -> bool {
    &&& forall|i: int|
        0 <= i < db.tables.len() ==> table_ok(#[trigger] db.tables[i]) && db.schemas.contains(
            db.tables[i].schema,
        )
    &&& tables_differ(db.tables)
    &&& roles_differ(db.roles)
    &&& db.schemas.no_duplicates()
    &&& db.sequences.no_duplicates()
}

/// The database of a new engine is sound.
pub proof fn law_empty_is_sound()
    ensures
        db_ok(catalog::empty_db()),
{
}

proof fn lemma_stored(t: Seq<Seq<char>>, c: Column, d: Datum)
    ensures
        dml::stored_value(t, c, d) matches Ok(v) ==> is_of(v, c.ty) && (c.not_null ==> v
            != Datum::Null),
{
}

/// A row that goes into a table fits the columns of the table, and has a value in
/// every column that asks for one.
pub proof fn law_new_row_fits(cx: CxModel, cs: Columns, ts: Columns, cells: Tuple, ds: Draws)
    requires
        dml::complete_row(cx, cs, ts, cells, ds) is Ok,
    ensures
        row_fits(cs, dml::complete_row(cx, cs, ts, cells, ds)->Ok_0.row),
        row_is_full(cs, dml::complete_row(cx, cs, ts, cells, ds)->Ok_0.row),
    decreases cs,
{
    match cs {
        Columns::Nil => {},
        Columns::Cons(c, rest) => {
            let g = dml::cell_or_filler(cx, c, ts, cells, ds)->Ok_0;
            lemma_stored(cx.symbols, c, g.value);
            law_new_row_fits(cx, *rest, ts, cells, g.left);
        },
    }
}

proof fn lemma_new_rows_fit(
    cx: CxModel,
    cs: Columns,
    ts: Columns,
    cells: Seq<Tuple>,
    i: int,
    acc: Fed,
)
    requires
        0 <= i <= cells.len(),
        rows_fit(cs, acc.rows),
        dml::complete_rows(cx, cs, ts, cells, i, acc) is Ok,
    ensures
        rows_fit(cs, dml::complete_rows(cx, cs, ts, cells, i, acc)->Ok_0.rows),
    decreases cells.len() - i,
{
    if i < cells.len() {
        law_new_row_fits(cx, cs, ts, cells[i], acc.left);
        let c = dml::complete_row(cx, cs, ts, cells[i], acc.left)->Ok_0;
        lemma_new_rows_fit(
            cx,
            cs,
            ts,
            cells,
            i + 1,
            Fed { rows: acc.rows.push(c.row), left: c.left },
        );
    }
}

/// An insertion keeps a table sound.
pub proof fn law_insertion_keeps_sound(cx: CxModel, t: TableModel, names: Idents, feed: Feed)
    requires
        table_ok(t),
        dml::inserted(cx, t, names, feed) is Ok,
    ensures
        table_ok(TableModel { rows: dml::inserted(cx, t, names, feed)->Ok_0.rows, ..t }),
{
    let ts = dml::target_columns(t.columns, names)->Ok_0;
    let cells = dml::feed_cells(cx, ts, names is Nil, feed)->Ok_0;
    let none = Fed { rows: Seq::empty(), left: cells.left };
    lemma_new_rows_fit(cx, t.columns, ts, cells.rows, 0, none);
    let more = dml::complete_rows(cx, t.columns, ts, cells.rows, 0, none)->Ok_0.rows;
    dml::law_inserted_rows(t.columns, t.rows, more, 0);
    dml::law_placed_unique(t.columns, t.rows, more, 0);
    assert(more.skip(0) =~= more);
}

proof fn lemma_with_named(cs: Columns, row: Tuple, name: usize, d: Datum)
    requires
        row_fits(cs, row),
        catalog::column_named(cs, name) matches Some(c) && is_of(d, c.ty),
    ensures
        row_fits(cs, dml::with_named(cs, row, name, d)),
    decreases cs,
{
    match (cs, row) {
        (Columns::Cons(c, more), Tuple::Cons(_, rest)) => {
            if c.name != name {
                lemma_with_named(*more, *rest, name, d);
            }
        },
        _ => {},
    }
}

proof fn lemma_assigned(
    cx: CxModel,
    env: Env,
    cs: Columns,
    assigns: Assigns,
    row: Tuple,
    ds: Draws,
)
    requires
        row_fits(cs, row),
        dml::assigned(cx, env, cs, assigns, row, ds) is Ok,
    ensures
        row_fits(cs, dml::assigned(cx, env, cs, assigns, row, ds)->Ok_0.row),
    decreases assigns,
{
    match assigns {
        Assigns::Nil => {},
        Assigns::Cons(n, e, rest) => {
            let c = catalog::column_named(cs, n)->Some_0;
            let g = dml::given_value(cx, env, c, *e, ds)->Ok_0;
            lemma_stored(cx.symbols, c, g.value);
            lemma_assigned(cx, env, cs, *rest, row, g.left);
            lemma_with_named(
                cs,
                dml::assigned(cx, env, cs, *rest, row, g.left)->Ok_0.row,
                n,
                dml::stored_value(cx.symbols, c, g.value)->Ok_0,
            );
        },
    }
}

proof fn lemma_updated_fit(
    cx: CxModel,
    fs: Fields,
    cs: Columns,
    assigns: Assigns,
    filter: Expr,
    rows: Seq<Tuple>,
    i: int,
    acc: Changed,
)
    requires
        0 <= i <= rows.len(),
        rows_fit(cs, rows),
        rows_fit(cs, acc.rows),
        dml::updated_from(cx, fs, cs, assigns, filter, rows, i, acc) is Ok,
    ensures
        rows_fit(cs, dml::updated_from(cx, fs, cs, assigns, filter, rows, i, acc)->Ok_0.rows),
    decreases rows.len() - i,
{
    if i < rows.len() {
        let env = Env::Frame(&fs, &rows[i], &Env::Empty);
        let d = eval::expr_value(cx, env, None, filter)->Ok_0;
        if datum::holds(d) {
            lemma_assigned(cx, env, cs, assigns, rows[i], acc.left);
            let row = dml::assigned(cx, env, cs, assigns, rows[i], acc.left)->Ok_0;
            lemma_updated_fit(
                cx,
                fs,
                cs,
                assigns,
                filter,
                rows,
                i + 1,
                Changed {
                    rows: acc.rows.push(row.row),
                    count: dml::next_count(acc.count),
                    left: row.left,
                },
            );
        } else {
            lemma_updated_fit(
                cx,
                fs,
                cs,
                assigns,
                filter,
                rows,
                i + 1,
                Changed { rows: acc.rows.push(rows[i]), count: acc.count, left: acc.left },
            );
        }
    }
}

/// An update keeps a table sound.
pub proof fn law_update_keeps_sound(cx: CxModel, t: TableModel, assigns: Assigns, filter: Expr)
    requires
        table_ok(t),
        dml::updated(cx, t, assigns, filter) is Ok,
    ensures
        table_ok(TableModel { rows: dml::updated(cx, t, assigns, filter)->Ok_0.rows, ..t }),
{
    let fs = fields::table_fields(t.columns, t.name);
    let none = Changed { rows: Seq::empty(), count: 0, left: cx.db.draws };
    lemma_updated_fit(cx, fs, t.columns, assigns, filter, t.rows, 0, none);
    let c = dml::updated_from(cx, fs, t.columns, assigns, filter, t.rows, 0, none)->Ok_0;
    dml::law_inserted_rows(t.columns, Seq::empty(), c.rows, 0);
    dml::law_placed_unique(t.columns, Seq::empty(), c.rows, 0);
    assert(Seq::<Tuple>::empty() + c.rows.skip(0) =~= c.rows);
}

/// Whether all of `some` are among the first `n` of `rows`.
spec fn among(rows: Seq<Tuple>, n: int, some: Seq<Tuple>) -> bool {
    forall|k: int|
        0 <= k < some.len() ==> exists|m: int| 0 <= m < n && rows[m] == #[trigger] some[k]
}

proof fn lemma_left(
    cx: CxModel,
    fs: Fields,
    cs: Columns,
    filter: Expr,
    rows: Seq<Tuple>,
    i: int,
    acc: Changed,
)
    requires
        0 <= i <= rows.len(),
        dml::all_unique(cs, rows),
        dml::all_unique(cs, acc.rows),
        among(rows, i, acc.rows),
        dml::left_from(cx, fs, filter, rows, i, acc) is Ok,
    ensures
        dml::all_unique(cs, dml::left_from(cx, fs, filter, rows, i, acc)->Ok_0.rows),
        among(
            rows,
            rows.len() as int,
            dml::left_from(cx, fs, filter, rows, i, acc)->Ok_0.rows,
        ),
    decreases rows.len() - i,
{
    if i < rows.len() {
        let d = eval::expr_value(
            cx,
            Env::Frame(&fs, &rows[i], &Env::Empty),
            None,
            filter,
        )->Ok_0;
        if datum::holds(d) {
            assert(among(rows, i + 1, acc.rows));
            lemma_left(
                cx,
                fs,
                cs,
                filter,
                rows,
                i + 1,
                Changed { rows: acc.rows, count: dml::next_count(acc.count), left: acc.left },
            );
        } else {
            let all = acc.rows.push(rows[i]);
            assert forall|name: usize, k: int, l: int|
                #![trigger dml::cell_named(cs, all[k], name), dml::cell_named(cs, all[l], name)]
                0 <= k < l < all.len() && dml::is_unique(cs, name) && dml::cell_named(
                    cs,
                    all[l],
                    name,
                ) != Datum::Null implies dml::cell_named(cs, all[k], name) != dml::cell_named(
                cs,
                all[l],
                name,
            ) by {
                assert(all[k] == acc.rows[k]);
                if l < acc.rows.len() {
                    assert(all[l] == acc.rows[l]);
                } else {
                    let m = choose|m: int| 0 <= m < i && rows[m] == acc.rows[k];
                    assert(dml::cell_named(cs, rows[m], name) != dml::cell_named(
                        cs,
                        rows[i],
                        name,
                    ));
                }
            }
            assert forall|k: int| 0 <= k < all.len() implies exists|m: int|
                0 <= m < i + 1 && rows[m] == #[trigger] all[k] by {
                if k < acc.rows.len() {
                    assert(all[k] == acc.rows[k]);
                    let m = choose|m: int| 0 <= m < i && rows[m] == acc.rows[k];
                    assert(rows[m] == all[k]);
                } else {
                    assert(rows[i] == all[k]);
                }
            }
            lemma_left(
                cx,
                fs,
                cs,
                filter,
                rows,
                i + 1,
                Changed { rows: all, count: acc.count, left: acc.left },
            );
        }
    } else {
        assert(among(rows, rows.len() as int, acc.rows));
    }
}

/// A deletion keeps a table sound.
pub proof fn law_deletion_keeps_sound(cx: CxModel, t: TableModel, filter: Expr)
    requires
        table_ok(t),
        dml::deleted(cx, t, filter) is Ok,
    ensures
        table_ok(TableModel { rows: dml::deleted(cx, t, filter)->Ok_0.rows, ..t }),
{
    let fs = fields::table_fields(t.columns, t.name);
    lemma_left(cx, fs, t.columns, filter, t.rows, 0, Changed { rows: Seq::empty(), count: 0, left: cx.db.draws });
    let rows = dml::deleted(cx, t, filter)->Ok_0.rows;
    assert forall|k: int| 0 <= k < rows.len() implies row_fits(t.columns, #[trigger] rows[k]) by {
        let m = choose|m: int| 0 <= m < t.rows.len() && t.rows[m] == rows[k];
        assert(row_fits(t.columns, t.rows[m]));
    }
}

proof fn lemma_named_in_append(a: Columns, b: Columns, name: usize)
    ensures
        catalog::column_named(catalog::columns_append(a, b), name) == (
        match catalog::column_named(a, name) {
            Some(c) => Some(c),
            None => catalog::column_named(b, name),
        }),
    decreases a,
{
    match a {
        Columns::Nil => {},
        Columns::Cons(c, rest) => {
            if c.name != name {
                lemma_named_in_append(*rest, b, name);
            }
        },
    }
}

/// Whether no name is that of a column of both.
spec fn apart(a: Columns, b: Columns) -> bool {
    forall|name: usize|
        catalog::column_named(a, name) is Some ==> #[trigger] catalog::column_named(b, name) is None
}

proof fn lemma_append_differs(a: Columns, b: Columns)
    requires
        change::repeated(a) is None,
        change::repeated(b) is None,
        apart(a, b),
    ensures
        change::repeated(catalog::columns_append(a, b)) is None,
    decreases a,
{
    match a {
        Columns::Nil => {},
        Columns::Cons(c, rest) => {
            assert(catalog::column_named(a, c.name) is Some);
            assert(catalog::column_named(b, c.name) is None);
            assert forall|name: usize|
                catalog::column_named(*rest, name) is Some implies #[trigger] catalog::column_named(
                b,
                name,
            ) is None by {
                assert(catalog::column_named(a, name) is Some);
            }
            lemma_append_differs(*rest, b);
            lemma_named_in_append(*rest, b, c.name);
        },
    }
}

proof fn lemma_widened(cs: Columns, row: Tuple, c: Column, d: Datum)
    requires
        row_fits(cs, row),
        is_of(d, c.ty),
    ensures
        row_fits(
            catalog::columns_append(cs, Columns::Cons(c, Box::new(Columns::Nil))),
            datum::tuple_append(row, Tuple::Cons(d, Box::new(Tuple::Nil))),
        ),
    decreases cs,
{
    match (cs, row) {
        (Columns::Cons(_, more), Tuple::Cons(_, rest)) => {
            lemma_widened(*more, *rest, c, d);
        },
        _ => {
            reveal_with_fuel(row_fits, 2);
        },
    }
}

proof fn lemma_without_column(cs: Columns, name: usize, other: usize)
    requires
        change::repeated(cs) is None,
    ensures
        catalog::column_named(change::without_column(cs, name), other) == (if other == name {
            None
        } else {
            catalog::column_named(cs, other)
        }),
    decreases cs,
{
    match cs {
        Columns::Nil => {},
        Columns::Cons(c, rest) => {
            if c.name != name {
                lemma_without_column(*rest, name, other);
            }
        },
    }
}

proof fn lemma_without_differs(cs: Columns, name: usize)
    requires
        change::repeated(cs) is None,
    ensures
        change::repeated(change::without_column(cs, name)) is None,
    decreases cs,
{
    match cs {
        Columns::Nil => {},
        Columns::Cons(c, rest) => {
            if c.name != name {
                lemma_without_differs(*rest, name);
                lemma_without_column(*rest, name, c.name);
            }
        },
    }
}

proof fn lemma_narrowed(cs: Columns, row: Tuple, name: usize, other: usize)
    requires
        row_fits(cs, row),
    ensures
        row_fits(change::without_column(cs, name), dml::without_named(cs, row, name)),
        other != name ==> dml::cell_named(
            change::without_column(cs, name),
            dml::without_named(cs, row, name),
            other,
        ) == dml::cell_named(cs, row, other),
    decreases cs,
{
    match (cs, row) {
        (Columns::Cons(c, more), Tuple::Cons(_, rest)) => {
            if c.name != name {
                lemma_narrowed(*more, *rest, name, other);
            }
        },
        _ => {},
    }
}

/// A column that is dropped takes nothing else with it: the rows keep their values
/// in all other columns.
pub proof fn law_drop_column_keeps_others(cs: Columns, row: Tuple, name: usize, other: usize)
    requires
        row_fits(cs, row),
        other != name,
    ensures
        dml::cell_named(
            change::without_column(cs, name),
            dml::without_named(cs, row, name),
            other,
        ) == dml::cell_named(cs, row, other),
{
    lemma_narrowed(cs, row, name, other);
}

proof fn lemma_narrowed_table(t: TableModel, name: usize)
    requires
        table_ok(t),
    ensures
        table_ok(
            TableModel {
                columns: change::without_column(t.columns, name),
                rows: change::narrowed(t.columns, t.rows, name),
                ..t
            },
        ),
{
    let cs = change::without_column(t.columns, name);
    let rows = change::narrowed(t.columns, t.rows, name);
    lemma_without_differs(t.columns, name);
    assert forall|i: int| 0 <= i < rows.len() implies row_fits(cs, #[trigger] rows[i]) by {
        lemma_narrowed(t.columns, t.rows[i], name, name);
    }
    assert forall|n: usize, i: int, j: int|
        #![trigger dml::cell_named(cs, rows[i], n), dml::cell_named(cs, rows[j], n)]
        0 <= i < j < rows.len() && dml::is_unique(cs, n) && dml::cell_named(cs, rows[j], n)
            != Datum::Null implies dml::cell_named(cs, rows[i], n) != dml::cell_named(
        cs,
        rows[j],
        n,
    ) by {
        lemma_without_column(t.columns, name, n);
        lemma_narrowed(t.columns, t.rows[i], name, n);
        lemma_narrowed(t.columns, t.rows[j], name, n);
        assert(dml::cell_named(t.columns, t.rows[i], n) != dml::cell_named(
            t.columns,
            t.rows[j],
            n,
        ));
    }
}

proof fn lemma_own_columns(parent: Columns, cs: Columns)
    requires
        change::repeated(cs) is None,
        change::own_columns(parent, cs) is Ok,
    ensures
        ({
            let own = change::own_columns(parent, cs)->Ok_0;
            &&& change::repeated(own) is None
            &&& apart(parent, own)
            &&& forall|name: usize|
                catalog::column_named(cs, name) is None ==> #[trigger] catalog::column_named(
                    own,
                    name,
                ) is None
        }),
    decreases cs,
{
    match cs {
        Columns::Nil => {},
        Columns::Cons(c, rest) => {
            lemma_own_columns(parent, *rest);
            let more = change::own_columns(parent, *rest)->Ok_0;
            let own = change::own_columns(parent, cs)->Ok_0;
            if catalog::column_named(parent, c.name) is None {
                assert(catalog::column_named(more, c.name) is None);
                assert forall|name: usize|
                    catalog::column_named(
                        parent,
                        name,
                    ) is Some implies #[trigger] catalog::column_named(own, name) is None by {
                    assert(catalog::column_named(more, name) is None);
                }
                assert forall|name: usize|
                    catalog::column_named(cs, name) is None implies #[trigger] catalog::column_named(
                    own,
                    name,
                ) is None by {
                    assert(catalog::column_named(more, name) is None);
                }
            } else {
                assert forall|name: usize|
                    catalog::column_named(cs, name) is None implies #[trigger] catalog::column_named(
                    own,
                    name,
                ) is None by {}
            }
        },
    }
}

proof fn lemma_table_place(ts: Seq<TableModel>, schema: usize, name: usize, from: int)
    requires
        0 <= from,
    ensures
        catalog::table_place(ts, schema, name, from) matches Some(i) ==> i < ts.len(),
        catalog::table_place(ts, schema, name, from) is None ==> forall|j: int|
            from <= j < ts.len() ==> (#[trigger] ts[j]).schema != schema || ts[j].name != name,
    decreases ts.len() - from,
{
    if from < ts.len() && !(ts[from].schema == schema && ts[from].name == name) {
        lemma_table_place(ts, schema, name, from + 1);
    }
}

proof fn lemma_path_place(ts: Seq<TableModel>, path: Idents, name: usize)
    ensures
        catalog::path_place(ts, path, name) matches Some(i) ==> i < ts.len(),
    decreases path,
{
    match path {
        Idents::Nil => {},
        Idents::Cons(schema, rest) => {
            lemma_table_place(ts, schema, name, 0);
            lemma_path_place(ts, *rest, name);
        },
    }
}

proof fn lemma_resolved(ts: Seq<TableModel>, path: Idents, n: Name)
    ensures
        catalog::resolved(ts, path, n) matches Some(i) ==> i < ts.len(),
{
    match n.schema {
        Some(schema) => {
            lemma_table_place(ts, schema, n.name, 0);
        },
        None => {
            lemma_path_place(ts, path, n.name);
        },
    }
}

proof fn lemma_creation_schema(schemas: Seq<usize>, path: Idents)
    ensures
        catalog::creation_schema(schemas, path) matches Some(s) ==> schemas.contains(s),
    decreases path,
{
    match path {
        Idents::Nil => {},
        Idents::Cons(schema, rest) => {
            lemma_creation_schema(schemas, *rest);
        },
    }
}

proof fn lemma_role_place(rs: Seq<Role>, name: usize, from: int)
    requires
        0 <= from,
    ensures
        catalog::role_place(rs, name, from) matches Some(i) ==> i < rs.len(),
        catalog::role_place(rs, name, from) is None ==> forall|j: int|
            from <= j < rs.len() ==> (#[trigger] rs[j]).name != name,
    decreases rs.len() - from,
{
    if from < rs.len() && rs[from].name != name {
        lemma_role_place(rs, name, from + 1);
    }
}

proof fn lemma_sequence_place(ss: Seq<Sequence>, s: Sequence, from: int)
    requires
        0 <= from,
    ensures
        catalog::sequence_place(ss, s, from) matches Some(i) ==> i < ss.len(),
        catalog::sequence_place(ss, s, from) is None ==> forall|j: int|
            from <= j < ss.len() ==> #[trigger] ss[j] != s,
    decreases ss.len() - from,
{
    if from < ss.len() && ss[from] != s {
        lemma_sequence_place(ss, s, from + 1);
    }
}

proof fn lemma_sequence_path(ss: Seq<Sequence>, path: Idents, name: usize)
    ensures
        catalog::sequence_path_place(ss, path, name) matches Some(i) ==> i < ss.len(),
    decreases path,
{
    match path {
        Idents::Nil => {},
        Idents::Cons(schema, rest) => {
            lemma_sequence_place(ss, Sequence { schema, name }, 0);
            lemma_sequence_path(ss, *rest, name);
        },
    }
}

/// A sound table in the place of a table of the same name leaves a database sound.
proof fn lemma_replaced(db: DbModel, i: int, t: TableModel)
    requires
        db_ok(db),
        0 <= i < db.tables.len(),
        table_ok(t),
        t.schema == db.tables[i].schema,
        t.name == db.tables[i].name,
    ensures
        db_ok(DbModel { tables: db.tables.update(i, t), ..db }),
{
    let after = DbModel { tables: db.tables.update(i, t), ..db };
    assert forall|k: int| 0 <= k < after.tables.len() implies table_ok(#[trigger] after.tables[k])
        && after.schemas.contains(after.tables[k].schema) by {
        assert(table_ok(db.tables[k]));
    }
}

proof fn lemma_added(db: DbModel, t: TableModel)
    requires
        db_ok(db),
        table_ok(t),
        db.schemas.contains(t.schema),
        forall|j: int|
            0 <= j < db.tables.len() ==> (#[trigger] db.tables[j]).schema != t.schema
                || db.tables[j].name != t.name,
    ensures
        db_ok(DbModel { tables: db.tables.push(t), ..db }),
{
    let after = DbModel { tables: db.tables.push(t), ..db };
    assert forall|k: int| 0 <= k < after.tables.len() implies table_ok(#[trigger] after.tables[k])
        && after.schemas.contains(after.tables[k].schema) by {
        if k < db.tables.len() {
            assert(table_ok(db.tables[k]));
        }
    }
}

proof fn lemma_table_creation(
    cx: CxModel,
    n: Name,
    quiet: bool,
    cs: Columns,
    parent: Option<Name>,
)
    requires
        db_ok(cx.db),
    ensures
        change::table_creation(cx, n, quiet, cs, parent) matches Ok(c) ==> db_ok(c.db),
{
    lemma_creation_schema(cx.db.schemas, cx.path);
    if let Ok(schema) = change::new_schema(cx, n) {
        lemma_table_place(cx.db.tables, schema, n.name, 0);
        if catalog::table_place(cx.db.tables, schema, n.name, 0) is None && change::repeated(
            cs,
        ) is None {
            match parent {
                None => {
                    let t = TableModel {
                        schema,
                        name: n.name,
                        owner: cx.user,
                        columns: cs,
                        rows: Seq::empty(),
                    };
                    lemma_added(cx.db, t);
                },
                Some(p) => {
                    lemma_resolved(cx.db.tables, cx.path, p);
                    if let Some(i) = catalog::resolved(cx.db.tables, cx.path, p) {
                        let ps = cx.db.tables[i as int].columns;
                        assert(table_ok(cx.db.tables[i as int]));
                        if let Ok(own) = change::own_columns(ps, cs) {
                            lemma_own_columns(ps, cs);
                            lemma_append_differs(ps, own);
                            let t = TableModel {
                                schema,
                                name: n.name,
                                owner: cx.user,
                                columns: catalog::columns_append(ps, own),
                                rows: Seq::empty(),
                            };
                            lemma_added(cx.db, t);
                        }
                    }
                },
            }
        }
    }
}

proof fn lemma_column_addition(cx: CxModel, n: Name, c: Column)
    requires
        db_ok(cx.db),
    ensures
        change::column_addition(cx, n, c) matches Ok(x) ==> db_ok(x.db),
{
    lemma_resolved(cx.db.tables, cx.path, n);
    if let Ok(x) = change::column_addition(cx, n, c) {
        let i = change::owned_table(cx, n)->Ok_0;
        let t = cx.db.tables[i as int];
        let loose = Column { not_null: false, ..c };
        let last = Columns::Cons(c, Box::new(Columns::Nil));
        let d = dml::stored_value(cx.symbols, loose, dml::filler_of(c))->Ok_0;
        let columns = catalog::columns_append(t.columns, last);
        let wide = change::widened(t.rows, d);
        assert(table_ok(t));
        lemma_stored(cx.symbols, loose, dml::filler_of(c));
        assert(change::repeated(last) is None) by {
            reveal_with_fuel(change::repeated, 2);
        }
        assert(apart(t.columns, last)) by {
            reveal_with_fuel(catalog::column_named, 2);
        }
        lemma_append_differs(t.columns, last);
        assert forall|k: int| 0 <= k < wide.len() implies row_fits(columns, #[trigger] wide[k]) by {
            lemma_widened(t.columns, t.rows[k], c, d);
        }
        dml::law_inserted_rows(columns, Seq::empty(), wide, 0);
        dml::law_placed_unique(columns, Seq::empty(), wide, 0);
        assert(Seq::<Tuple>::empty() + wide.skip(0) =~= wide);
        lemma_replaced(cx.db, i as int, TableModel { columns, rows: wide, ..t });
    }
}

proof fn lemma_table_removal(db: DbModel, i: int)
    requires
        db_ok(db),
        0 <= i < db.tables.len(),
    ensures
        db_ok(change::without_table(db, i)),
{
    let after = change::without_table(db, i);
    assert forall|k: int| 0 <= k < after.tables.len() implies table_ok(#[trigger] after.tables[k])
        && after.schemas.contains(after.tables[k].schema) by {
        if k < i {
            assert(table_ok(db.tables[k]));
        } else {
            assert(table_ok(db.tables[k + 1]));
        }
    }
}

proof fn lemma_owned_removal(db: DbModel, role: usize, n: int)
    requires
        db_ok(db),
        n <= db.tables.len(),
    ensures
        db_ok(change::without_owned(db, role, n)),
    decreases n,
{
    if n > 0 {
        if db.tables[n - 1].owner == role {
            lemma_table_removal(db, n - 1);
            lemma_owned_removal(change::without_table(db, n - 1), role, n - 1);
        } else {
            lemma_owned_removal(db, role, n - 1);
        }
    }
}

proof fn lemma_new_schema(db: DbModel, name: usize)
    requires
        db_ok(db),
        !db.schemas.contains(name),
    ensures
        db_ok(DbModel { schemas: db.schemas.push(name), ..db }),
{
    let after = DbModel { schemas: db.schemas.push(name), ..db };
    assert forall|k: int| 0 <= k < after.tables.len() implies table_ok(#[trigger] after.tables[k])
        && after.schemas.contains(after.tables[k].schema) by {
        let s = db.tables[k].schema;
        assert(db.schemas.contains(s));
        let j = choose|j: int| 0 <= j < db.schemas.len() && db.schemas[j] == s;
        assert(after.schemas[j] == s);
    }
}

proof fn lemma_tables_creation(
    cx: CxModel,
    schema: usize,
    tables: TableDefs,
    said: Seq<Notice>,
)
    requires
        db_ok(cx.db),
    ensures
        change::tables_creation(cx, schema, tables, said) matches Ok(c) ==> db_ok(c.db),
    decreases tables,
{
    if let TableDefs::Cons(n, quiet, cs, parent, rest) = tables {
        let at = Name { schema: Some(schema), name: n.name };
        lemma_table_creation(cx, at, quiet, *cs, parent);
        if let Ok(c) = change::table_creation(cx, at, quiet, *cs, parent) {
            lemma_tables_creation(
                CxModel { db: c.db, ..cx },
                schema,
                *rest,
                said + c.notices,
            );
        }
    }
}

proof fn lemma_schema_place(schemas: Seq<usize>, name: usize, from: int)
    requires
        0 <= from,
    ensures
        change::schema_place(schemas, name, from) matches Some(i) ==> from <= i < schemas.len()
            && schemas[i] == name,
    decreases schemas.len() - from,
{
    if from < schemas.len() && schemas[from] != name {
        lemma_schema_place(schemas, name, from + 1);
    }
}

proof fn lemma_schema_removal(db: DbModel, schema: usize, n: int)
    requires
        db_ok(db),
        0 <= n <= db.tables.len(),
        forall|k: int| n <= k < db.tables.len() ==> (#[trigger] db.tables[k]).schema != schema,
    ensures
        ({
            let after = change::without_tables_in(db, schema, n);
            &&& db_ok(after)
            &&& after.schemas == db.schemas
            &&& after.sequences == db.sequences
            &&& forall|k: int|
                0 <= k < after.tables.len() ==> (#[trigger] after.tables[k]).schema != schema
        }),
    decreases n,
{
    if n > 0 {
        if db.tables[n - 1].schema == schema {
            lemma_table_removal(db, n - 1);
            lemma_schema_removal(change::without_table(db, n - 1), schema, n - 1);
        } else {
            lemma_schema_removal(db, schema, n - 1);
        }
    }
}

proof fn lemma_sequences_outside(ss: Seq<Sequence>, schema: usize)
    requires
        ss.no_duplicates(),
    ensures
        change::sequences_outside(ss, schema).no_duplicates(),
        forall|s: Sequence| #[trigger]
            change::sequences_outside(ss, schema).contains(s) <==> ss.contains(s) && s.schema
                != schema,
    decreases ss.len(),
{
    if ss.len() > 0 {
        let before = ss.drop_last();
        lemma_sequences_outside(before, schema);
        let rest = change::sequences_outside(before, schema);
        let after = change::sequences_outside(ss, schema);
        assert(!before.contains(ss.last()));
        assert forall|s: Sequence| #[trigger]
            after.contains(s) <==> ss.contains(s) && s.schema != schema by {
            if ss.contains(s) {
                let j = choose|j: int| 0 <= j < ss.len() && ss[j] == s;
                if j < before.len() {
                    assert(before[j] == s);
                    assert(before.contains(s));
                }
            }
            if before.contains(s) {
                let j = choose|j: int| 0 <= j < before.len() && before[j] == s;
                assert(ss[j] == s);
            }
            assert(ss[ss.len() - 1] == ss.last());
            if rest.contains(s) {
                let j = choose|j: int| 0 <= j < rest.len() && rest[j] == s;
                assert(after[j] == s);
            }
            if after.contains(s) && ss.last().schema != schema {
                let j = choose|j: int| 0 <= j < after.len() && after[j] == s;
                if j < rest.len() {
                    assert(rest[j] == s);
                }
            }
            if s == ss.last() && s.schema != schema {
                assert(after[after.len() - 1] == s);
            }
        }
        if ss.last().schema != schema {
            assert(!rest.contains(ss.last()));
        }
    }
}

/// A schema that was dropped has no tables any more.
pub proof fn law_dropped_schema_is_empty(cx: CxModel, name: usize, quiet: bool)
    requires
        db_ok(cx.db),
        change::schema_removal(cx, name, quiet, true) is Ok,
    ensures
        ({
            let after = change::schema_removal(cx, name, quiet, true)->Ok_0.db;
            &&& !after.schemas.contains(name)
            &&& forall|k: int|
                0 <= k < after.tables.len() ==> (#[trigger] after.tables[k]).schema != name
        }),
{
    lemma_schema_place(cx.db.schemas, name, 0);
    lemma_no_schema_place(cx.db.schemas, name, 0);
    lemma_schema_removal(cx.db, name, cx.db.tables.len() as int);
    let after = change::schema_removal(cx, name, quiet, true)->Ok_0.db;
    if change::schema_place(cx.db.schemas, name, 0) is None {
        assert forall|k: int| 0 <= k < after.tables.len() implies (
        #[trigger] after.tables[k]).schema != name by {
            assert(cx.db.schemas.contains(cx.db.tables[k].schema));
        }
    }
}

proof fn lemma_no_schema_place(schemas: Seq<usize>, name: usize, from: int)
    requires
        0 <= from,
    ensures
        change::schema_place(schemas, name, from) is None ==> forall|j: int|
            from <= j < schemas.len() ==> schemas[j] != name,
    decreases schemas.len() - from,
{
    if from < schemas.len() && schemas[from] != name {
        lemma_no_schema_place(schemas, name, from + 1);
    }
}

/// After the tables of a role were dropped or handed over, it has none.
pub proof fn law_nothing_owned_is_left(cx: CxModel, role: usize, to: usize)
    requires
        role != to,
    ensures
        change::owned_removal(cx, role) matches Ok(c) ==> forall|k: int|
            0 <= k < c.db.tables.len() ==> (#[trigger] c.db.tables[k]).owner != role,
        change::reassignment(cx, role, to) matches Ok(c) ==> forall|k: int|
            0 <= k < c.db.tables.len() ==> (#[trigger] c.db.tables[k]).owner != role,
{
    lemma_nothing_owned(cx.db, role, cx.db.tables.len() as int);
}

proof fn lemma_nothing_owned(db: DbModel, role: usize, n: int)
    requires
        0 <= n <= db.tables.len(),
        forall|k: int| n <= k < db.tables.len() ==> (#[trigger] db.tables[k]).owner != role,
    ensures
        ({
            let after = change::without_owned(db, role, n);
            forall|k: int|
                0 <= k < after.tables.len() ==> (#[trigger] after.tables[k]).owner != role
        }),
    decreases n,
{
    if n > 0 {
        if db.tables[n - 1].owner == role {
            lemma_nothing_owned(change::without_table(db, n - 1), role, n - 1);
        } else {
            lemma_nothing_owned(db, role, n - 1);
        }
    }
}

proof fn lemma_upserted_fit(
    cx: CxModel,
    t: TableModel,
    action: Conflict,
    more: Seq<Tuple>,
    i: int,
    acc: Upserted,
)
    requires
        0 <= i <= more.len(),
        forall|k: int| 0 <= k < more.len() ==> row_fits(t.columns, #[trigger] more[k]),
        forall|k: int| 0 <= k < acc.rows.len() ==> row_fits(t.columns, #[trigger] acc.rows[k]),
        upsert::placed_from(cx, t, action, more, i, acc) is Ok,
    ensures
        ({
            let rows = upsert::placed_from(cx, t, action, more, i, acc)->Ok_0.rows;
            forall|k: int| 0 <= k < rows.len() ==> row_fits(t.columns, #[trigger] rows[k])
        }),
    decreases more.len() - i,
{
    if i < more.len() {
        let name = upsert::named_column(action);
        upsert::lemma_agreeing(t.columns, name, acc.rows, more[i], 0);
        match upsert::agreeing(t.columns, name, acc.rows, more[i], 0) {
            Some(j) => {
                let next = upsert::resolved(cx, t, action, acc, more[i], j)->Ok_0;
                if let Conflict::Update(_, assigns, _) = action {
                    let fs = fields::table_fields(t.columns, t.name);
                    let ex = fields::requalified(fs, symbols::EXCLUDED);
                    let outer = Env::Frame(&ex, &more[i], &Env::Empty);
                    let here = Env::Frame(&fs, &acc.rows[j], &outer);
                    if dml::assigned(cx, here, t.columns, *assigns, acc.rows[j], acc.left) is Ok {
                        lemma_assigned(cx, here, t.columns, *assigns, acc.rows[j], acc.left);
                    }
                }
                lemma_upserted_fit(cx, t, action, more, i + 1, next);
            },
            None => {
                lemma_upserted_fit(
                    cx,
                    t,
                    action,
                    more,
                    i + 1,
                    Upserted {
                        rows: acc.rows.push(more[i]),
                        touched: acc.touched.push(more[i]),
                        places: acc.places.push(acc.rows.len() as int),
                        left: acc.left,
                    },
                );
            },
        }
    }
}

proof fn lemma_upsert_keeps_sound(
    cx: CxModel,
    n: Name,
    names: Idents,
    feed: Feed,
    action: Conflict,
)
    requires
        db_ok(cx.db),
        change::merging(cx, n, names, feed, action) is Ok,
    ensures
        db_ok(change::merging(cx, n, names, feed, action)->Ok_0.db),
{
    lemma_resolved(cx.db.tables, cx.path, n);
    let i = change::open_table(cx, n, change::upserting(action))->Ok_0;
    let t = cx.db.tables[i as int];
    assert(table_ok(t));
    let ts = dml::target_columns(t.columns, names)->Ok_0;
    let cells = dml::feed_cells(cx, ts, names is Nil, feed)->Ok_0;
    let none = Fed { rows: Seq::empty(), left: cells.left };
    lemma_new_rows_fit(cx, t.columns, ts, cells.rows, 0, none);
    let more = dml::complete_rows(cx, t.columns, ts, cells.rows, 0, none)->Ok_0;
    let start = upsert::unchanged(t, more.left);
    upsert::law_upserted_unique(cx, t, action, more.rows, 0, start);
    lemma_upserted_fit(cx, t, action, more.rows, 0, start);
    let rows = upsert::upserted(cx, t, names, feed, action)->Ok_0.rows;
    lemma_replaced(cx.db, i as int, TableModel { rows, ..t });
}

proof fn lemma_drop_schema_keeps_sound(cx: CxModel, name: usize, quiet: bool, cascade: bool)
    requires
        db_ok(cx.db),
        change::schema_removal(cx, name, quiet, cascade) is Ok,
    ensures
        db_ok(change::schema_removal(cx, name, quiet, cascade)->Ok_0.db),
{
    if let Some(i) = change::schema_place(cx.db.schemas, name, 0) {
        lemma_schema_place(cx.db.schemas, name, 0);
        lemma_schema_removal(cx.db, name, cx.db.tables.len() as int);
        lemma_sequences_outside(cx.db.sequences, name);
        let bare = change::without_tables_in(cx.db, name, cx.db.tables.len() as int);
        let after = change::schema_removal(cx, name, quiet, cascade)->Ok_0.db;
        assert forall|k: int| 0 <= k < after.tables.len() implies table_ok(
            #[trigger] after.tables[k],
        ) && after.schemas.contains(after.tables[k].schema) by {
            let x = bare.tables[k].schema;
            assert(cx.db.schemas.contains(x));
            let j = choose|j: int| 0 <= j < cx.db.schemas.len() && cx.db.schemas[j] == x;
            if j < i {
                assert(after.schemas[j] == x);
            } else {
                assert(after.schemas[j - 1] == x);
            }
        }
    }
}

/// Every statement keeps a sound database sound: columns have different names, rows
/// fit their columns, unique columns are unique, and nothing is there twice.
#[verifier::rlimit(60)]
#[verifier::spinoff_prover]
pub proof fn law_change_keeps_sound(cx: CxModel, c: SecurityConfig, stmt: Stmt)
    requires
        db_ok(cx.db),
        change::changed(cx, c, stmt) is Ok,
    ensures
        db_ok(change::changed(cx, c, stmt)->Ok_0.db),
    decreases stmt,
{
    reveal(change::changed);
    match stmt {
        Stmt::Returning(s, _) => {
            if change::row_tag(*s) is Some {
                law_change_keeps_sound(cx, c, *s);
            }
        },
        Stmt::Insert(n, names, feed) => {
            lemma_resolved(cx.db.tables, cx.path, n);
            let i = change::open_table(cx, n, change::inserting())->Ok_0;
            let t = cx.db.tables[i as int];
            assert(table_ok(t));
            law_insertion_keeps_sound(cx, t, *names, *feed);
            let rows = dml::inserted(cx, t, *names, *feed)->Ok_0.rows;
            lemma_replaced(cx.db, i as int, TableModel { rows, ..t });
        },
        Stmt::Upsert(n, names, feed, action) => {
            lemma_upsert_keeps_sound(cx, n, *names, *feed, *action);
        },
        Stmt::Update(n, assigns, filter) => {
            lemma_resolved(cx.db.tables, cx.path, n);
            let i = change::open_table(cx, n, change::updating())->Ok_0;
            let t = cx.db.tables[i as int];
            assert(table_ok(t));
            law_update_keeps_sound(cx, t, *assigns, *filter);
            let rows = dml::updated(cx, t, *assigns, *filter)->Ok_0.rows;
            lemma_replaced(cx.db, i as int, TableModel { rows, ..t });
        },
        Stmt::Delete(n, filter) => {
            lemma_resolved(cx.db.tables, cx.path, n);
            let i = change::open_table(cx, n, change::deleting())->Ok_0;
            let t = cx.db.tables[i as int];
            assert(table_ok(t));
            law_deletion_keeps_sound(cx, t, *filter);
            let rows = dml::deleted(cx, t, *filter)->Ok_0.rows;
            lemma_replaced(cx.db, i as int, TableModel { rows, ..t });
        },
        Stmt::CreateTable(n, quiet, cs, parent) => {
            lemma_table_creation(cx, n, quiet, *cs, parent);
        },
        Stmt::DropTable(n, _) => {
            lemma_resolved(cx.db.tables, cx.path, n);
            if let Some(i) = catalog::resolved(cx.db.tables, cx.path, n) {
                lemma_table_removal(cx.db, i as int);
            }
        },
        Stmt::AddColumn(n, column) => {
            lemma_column_addition(cx, n, column);
        },
        Stmt::DropColumn(n, name, _) => {
            lemma_resolved(cx.db.tables, cx.path, n);
            let i = change::owned_table(cx, n)->Ok_0;
            let t = cx.db.tables[i as int];
            assert(table_ok(t));
            lemma_narrowed_table(t, name);
            lemma_replaced(
                cx.db,
                i as int,
                TableModel {
                    columns: change::without_column(t.columns, name),
                    rows: change::narrowed(t.columns, t.rows, name),
                    ..t
                },
            );
        },
        Stmt::CreateSchema(given, tables) => {
            let name = match given {
                Some(n) => n,
                None => cx.user,
            };
            lemma_new_schema(cx.db, name);
            let db = DbModel { schemas: cx.db.schemas.push(name), ..cx.db };
            lemma_tables_creation(CxModel { db, ..cx }, name, *tables, Seq::empty());
        },
        Stmt::DropSchema(name, quiet, cascade) => {
            lemma_drop_schema_keeps_sound(cx, name, quiet, cascade);
        },
        Stmt::CreateSequence(n) => {
            let schema = change::new_schema(cx, n)->Ok_0;
            lemma_sequence_place(cx.db.sequences, Sequence { schema, name: n.name }, 0);
        },
        Stmt::DropSequence(n, _) => {
            lemma_sequence_path(cx.db.sequences, cx.path, n.name);
            if let Some(schema) = n.schema {
                lemma_sequence_place(cx.db.sequences, Sequence { schema, name: n.name }, 0);
            }
        },
        Stmt::CreateRole(name, _) => {
            lemma_role_place(cx.db.roles, name, 0);
        },
        Stmt::AlterRole(name, _) => {
            lemma_role_place(cx.db.roles, name, 0);
        },
        Stmt::DropRole(name, _) => {
            lemma_role_place(cx.db.roles, name, 0);
        },
        Stmt::DropOwned(role) => {
            lemma_owned_removal(cx.db, role, cx.db.tables.len() as int);
        },
        Stmt::ReassignOwned(from, to) => {
            let after = change::reassignment(cx, from, to)->Ok_0.db;
            assert forall|k: int| 0 <= k < after.tables.len() implies table_ok(
                #[trigger] after.tables[k],
            ) && after.schemas.contains(after.tables[k].schema) by {
                assert(table_ok(cx.db.tables[k]));
            }
        },
        _ => {},
    }
}

} // verus!
