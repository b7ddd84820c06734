//! Laws of what names mean, and of statements that make and drop tables, columns, schemas and
//! sequences.

use vstd::prelude::*;
use crate::analyze::CxModel;
use crate::ast::Assigns;
use crate::ast::Column;
use crate::ast::Columns;
use crate::ast::Conflict;
use crate::ast::Expr;
use crate::ast::Feed;
use crate::ast::Idents;
use crate::ast::Name;
use crate::ast::Privileges;
use crate::ast::TableDefs;
use crate::catalog;
use crate::catalog::DbModel;
use crate::catalog::Draws;
use crate::catalog::Grant;
use crate::catalog::Object;
use crate::catalog::Sequence;
use crate::catalog::TableModel;
use crate::change;
use crate::datum;
use crate::datum::Datum;
use crate::datum::Tuple;
use crate::dml;
use crate::fault::Fault;
use crate::results;
use crate::upsert;
use crate::validity;
use crate::writes;

verus! {

/// Filtering twice keeps what both filters keep.
pub proof fn lemma_filter_filter<A>(s: Seq<A>, p: spec_fn(A) -> bool, q: spec_fn(A) -> bool)
    ensures
        s.filter(p).filter(q) == s.filter(|x: A| p(x) && q(x)),
    decreases s.len(),
{
    reveal(Seq::filter);
    if s.len() > 0 {
        lemma_filter_filter(s.drop_last(), p, q);
        if p(s.last()) {
            assert(s.filter(p).drop_last() =~= s.drop_last().filter(p));
        }
    }
}

/// Filters that agree on the items keep the same ones.
pub proof fn lemma_filter_same<A>(s: Seq<A>, p: spec_fn(A) -> bool, q: spec_fn(A) -> bool)
    requires
        forall|i: int| 0 <= i < s.len() ==> p(#[trigger] s[i]) == q(s[i]),
    ensures
        s.filter(p) == s.filter(q),
    decreases s.len(),
{
    reveal(Seq::filter);
    if s.len() > 0 {
        assert forall|i: int| 0 <= i < s.drop_last().len() implies p(#[trigger] s.drop_last()[i])
            == q(s.drop_last()[i]) by {
            assert(s.drop_last()[i] == s[i]);
        }
        lemma_filter_same(s.drop_last(), p, q);
        assert(s[s.len() - 1] == s.last());
    }
}

/// Whether a table has a name in a schema.
pub open spec fn is_table(t: TableModel, schema: usize, name: usize) -> bool {
    t.schema == schema && t.name == name
}

proof fn lemma_table_place(ts: Seq<TableModel>, schema: usize, name: usize, from: int)
    requires
        0 <= from,
        ts.len() <= usize::MAX,
    ensures
        match catalog::table_place(ts, schema, name, from) {
            Some(i) => {
                &&& from <= i < ts.len()
                &&& is_table(ts[i as int], schema, name)
                &&& forall|k: int| from <= k < i ==> !is_table(#[trigger] ts[k], schema, name)
            },
            None => forall|k: int|
                from <= k < ts.len() ==> !is_table(#[trigger] ts[k], schema, name),
        },
    decreases ts.len() - from,
{
    if from < ts.len() && !is_table(ts[from], schema, name) {
        lemma_table_place(ts, schema, name, from + 1);
    }
}

/// Whether a schema has a table of a name.
pub open spec fn has_table(ts: Seq<TableModel>, schema: usize, name: usize) -> bool {
    exists|k: int| 0 <= k < ts.len() && is_table(#[trigger] ts[k], schema, name)
}

/// A name with a schema means the table of that name in that schema, and nothing if there is
/// none.
pub proof fn law_qualified_name(ts: Seq<TableModel>, path: Idents, n: Name)
    requires
        ts.len() <= usize::MAX,
        n.schema is Some,
    ensures
        match catalog::resolved(ts, path, n) {
            Some(i) => i < ts.len() && is_table(ts[i as int], n.schema->Some_0, n.name),
            None => !has_table(ts, n.schema->Some_0, n.name),
        },
{
    lemma_table_place(ts, n.schema->Some_0, n.name, 0);
}

proof fn lemma_path_place(ts: Seq<TableModel>, path: Idents, name: usize)
    requires
        ts.len() <= usize::MAX,
    ensures
        match catalog::path_place(ts, path, name) {
            Some(i) => {
                &&& i < ts.len()
                &&& exists|p: int|
                    {
                        &&& 0 <= p < results::idents_len(path)
                        &&& is_table(ts[i as int], #[trigger] results::ident_at(path, p), name)
                        &&& forall|q: int|
                            0 <= q < p ==> !has_table(
                                ts,
                                #[trigger] results::ident_at(path, q),
                                name,
                            )
                    }
            },
            None => forall|p: int|
                0 <= p < results::idents_len(path) ==> !has_table(
                    ts,
                    #[trigger] results::ident_at(path, p),
                    name,
                ),
        },
    decreases path,
{
    if let Idents::Cons(schema, rest) = path {
        lemma_table_place(ts, schema, name, 0);
        lemma_path_place(ts, *rest, name);
        assert(results::ident_at(path, 0) == schema);
        assert forall|q: int| 1 <= q implies #[trigger] results::ident_at(path, q)
            == results::ident_at(*rest, q - 1) by {}
        if catalog::table_place(ts, schema, name, 0) is None {
            if let Some(i) = catalog::path_place(ts, *rest, name) {
                let p = choose|p: int|
                    {
                        &&& 0 <= p < results::idents_len(*rest)
                        &&& is_table(ts[i as int], #[trigger] results::ident_at(*rest, p), name)
                        &&& forall|q: int|
                            0 <= q < p ==> !has_table(
                                ts,
                                #[trigger] results::ident_at(*rest, q),
                                name,
                            )
                    };
                assert(results::ident_at(path, p + 1) == results::ident_at(*rest, p));
                assert forall|q: int| 0 <= q < p + 1 implies !has_table(
                    ts,
                    #[trigger] results::ident_at(path, q),
                    name,
                ) by {
                    if q > 0 {
                        assert(results::ident_at(path, q) == results::ident_at(*rest, q - 1));
                    }
                }
            } else {
                assert forall|p: int| 0 <= p < results::idents_len(path) implies !has_table(
                    ts,
                    #[trigger] results::ident_at(path, p),
                    name,
                ) by {
                    if p > 0 {
                        assert(results::ident_at(path, p) == results::ident_at(*rest, p - 1));
                    }
                }
            }
        }
    }
}

/// A name without a schema means the table of that name in the first schema of the search
/// path that has one.
pub proof fn law_search_path(ts: Seq<TableModel>, path: Idents, n: Name)
    requires
        ts.len() <= usize::MAX,
        n.schema is None,
    ensures
        match catalog::resolved(ts, path, n) {
            Some(i) => {
                &&& i < ts.len()
                &&& exists|p: int|
                    {
                        &&& 0 <= p < results::idents_len(path)
                        &&& is_table(ts[i as int], #[trigger] results::ident_at(path, p), n.name)
                        &&& forall|q: int|
                            0 <= q < p ==> !has_table(
                                ts,
                                #[trigger] results::ident_at(path, q),
                                n.name,
                            )
                    }
            },
            None => forall|p: int|
                0 <= p < results::idents_len(path) ==> !has_table(
                    ts,
                    #[trigger] results::ident_at(path, p),
                    n.name,
                ),
        },
{
    lemma_path_place(ts, path, n.name);
}

/// Something new without a schema of its own goes to the first schema of the search path that
/// is there.
pub proof fn law_new_schema(schemas: Seq<usize>, path: Idents)
    ensures
        match catalog::creation_schema(schemas, path) {
            Some(s) => schemas.contains(s) && exists|p: int|
                {
                    &&& 0 <= p < results::idents_len(path)
                    &&& #[trigger] results::ident_at(path, p) == s
                    &&& forall|q: int|
                        0 <= q < p ==> !schemas.contains(#[trigger] results::ident_at(path, q))
                },
            None => forall|p: int|
                0 <= p < results::idents_len(path) ==> !schemas.contains(
                    #[trigger] results::ident_at(path, p),
                ),
        },
    decreases path,
{
    if let Idents::Cons(schema, rest) = path {
        law_new_schema(schemas, *rest);
        assert(results::ident_at(path, 0) == schema);
        assert forall|q: int| 1 <= q implies #[trigger] results::ident_at(path, q)
            == results::ident_at(*rest, q - 1) by {}
        if !schemas.contains(schema) {
            if let Some(s) = catalog::creation_schema(schemas, *rest) {
                let p = choose|p: int|
                    {
                        &&& 0 <= p < results::idents_len(*rest)
                        &&& #[trigger] results::ident_at(*rest, p) == s
                        &&& forall|q: int|
                            0 <= q < p ==> !schemas.contains(
                                #[trigger] results::ident_at(*rest, q),
                            )
                    };
                assert(results::ident_at(path, p + 1) == s);
                assert forall|q: int| 0 <= q < p + 1 implies !schemas.contains(
                    #[trigger] results::ident_at(path, q),
                ) by {
                    if q > 0 {
                        assert(results::ident_at(path, q) == results::ident_at(*rest, q - 1));
                    }
                }
            } else {
                assert forall|p: int| 0 <= p < results::idents_len(path) implies !schemas.contains(
                    #[trigger] results::ident_at(path, p),
                ) by {
                    if p > 0 {
                        assert(results::ident_at(path, p) == results::ident_at(*rest, p - 1));
                    }
                }
            }
        }
    }
}

proof fn lemma_sequence_place(ss: Seq<Sequence>, s: Sequence, from: int)
    requires
        0 <= from,
        ss.len() <= usize::MAX,
    ensures
        match catalog::sequence_place(ss, s, from) {
            Some(i) => from <= i < ss.len() && ss[i as int] == s,
            None => forall|k: int| from <= k < ss.len() ==> #[trigger] ss[k] != s,
        },
    decreases ss.len() - from,
{
    if from < ss.len() && ss[from] != s {
        lemma_sequence_place(ss, s, from + 1);
    }
}

proof fn lemma_sequence_path(ss: Seq<Sequence>, path: Idents, name: usize)
    requires
        ss.len() <= usize::MAX,
    ensures
        match catalog::sequence_path_place(ss, path, name) {
            Some(i) => {
                &&& i < ss.len()
                &&& ss[i as int].name == name
                &&& exists|p: int|
                    {
                        &&& 0 <= p < results::idents_len(path)
                        &&& #[trigger] results::ident_at(path, p) == ss[i as int].schema
                        &&& forall|q: int|
                            0 <= q < p ==> !ss.contains(
                                (Sequence { schema: #[trigger] results::ident_at(path, q), name }),
                            )
                    }
            },
            None => forall|p: int|
                0 <= p < results::idents_len(path) ==> !ss.contains(
                    (Sequence { schema: #[trigger] results::ident_at(path, p), name }),
                ),
        },
    decreases path,
{
    if let Idents::Cons(schema, rest) = path {
        lemma_sequence_place(ss, Sequence { schema, name }, 0);
        lemma_sequence_path(ss, *rest, name);
        assert(results::ident_at(path, 0) == schema);
        assert forall|q: int| 1 <= q implies #[trigger] results::ident_at(path, q)
            == results::ident_at(*rest, q - 1) by {}
        if catalog::sequence_place(ss, Sequence { schema, name }, 0) is None {
            if let Some(i) = catalog::sequence_path_place(ss, *rest, name) {
                let p = choose|p: int|
                    {
                        &&& 0 <= p < results::idents_len(*rest)
                        &&& #[trigger] results::ident_at(*rest, p) == ss[i as int].schema
                        &&& forall|q: int|
                            0 <= q < p ==> !ss.contains(
                                (Sequence { schema: #[trigger] results::ident_at(*rest, q), name }),
                            )
                    };
                assert(results::ident_at(path, p + 1) == results::ident_at(*rest, p));
                assert forall|q: int| 0 <= q < p + 1 implies !ss.contains(
                    (Sequence { schema: #[trigger] results::ident_at(path, q), name }),
                ) by {
                    if q > 0 {
                        assert(results::ident_at(path, q) == results::ident_at(*rest, q - 1));
                    }
                }
            } else {
                assert forall|p: int| 0 <= p < results::idents_len(path) implies !ss.contains(
                    (Sequence { schema: #[trigger] results::ident_at(path, p), name }),
                ) by {
                    if p > 0 {
                        assert(results::ident_at(path, p) == results::ident_at(*rest, p - 1));
                    }
                }
            }
        }
    }
}

/// A name means the sequence of that name in its schema or, without one, in the first schema
/// of the search path that has one.
pub proof fn law_sequence_name(ss: Seq<Sequence>, path: Idents, n: Name)
    requires
        ss.len() <= usize::MAX,
    ensures
        n.schema matches Some(schema) ==> match catalog::sequence_resolved(ss, path, n) {
            Some(i) => i < ss.len() && ss[i as int] == (Sequence { schema, name: n.name }),
            None => !ss.contains((Sequence { schema, name: n.name })),
        },
        n.schema is None ==> match catalog::sequence_resolved(ss, path, n) {
            Some(i) => {
                &&& i < ss.len()
                &&& ss[i as int].name == n.name
                &&& exists|p: int|
                    {
                        &&& 0 <= p < results::idents_len(path)
                        &&& #[trigger] results::ident_at(path, p) == ss[i as int].schema
                        &&& forall|q: int|
                            0 <= q < p ==> !ss.contains(
                                (Sequence {
                                    schema: #[trigger] results::ident_at(path, q),
                                    name: n.name,
                                }),
                            )
                    }
            },
            None => forall|p: int|
                0 <= p < results::idents_len(path) ==> !ss.contains(
                    (Sequence { schema: #[trigger] results::ident_at(path, p), name: n.name }),
                ),
        },
{
    lemma_sequence_path(ss, path, n.name);
    if let Some(schema) = n.schema {
        lemma_sequence_place(ss, Sequence { schema, name: n.name }, 0);
    }
}

/// Whether two databases differ at most in the tables and in what was drawn.
pub open spec fn same_but_tables(a: DbModel, b: DbModel) -> bool {
    &&& a.schemas == b.schemas
    &&& a.sequences == b.sequences
    &&& a.roles == b.roles
    &&& a.grants == b.grants
    &&& a.members == b.members
}

/// Whether `after` is `before` with other rows in the table at place `i`.
pub open spec fn rows_changed(before: DbModel, after: DbModel, i: int, rows: Seq<Tuple>) -> bool {
    &&& same_but_tables(before, after)
    &&& after.tables.len() == before.tables.len()
    &&& 0 <= i < before.tables.len()
    &&& forall|k: int|
        0 <= k < before.tables.len() && k != i ==> #[trigger] after.tables[k] == before.tables[k]
    &&& after.tables[i].rows == rows
    &&& after.tables[i].columns == before.tables[i].columns
    &&& is_table(after.tables[i], before.tables[i].schema, before.tables[i].name)
    &&& after.tables[i].owner == before.tables[i].owner
}

/// Whether a role may do to a table what each of some privileges allows.
pub open spec fn may(
    db: DbModel,
    user: usize,
    t: TableModel,
    insert: bool,
    update: bool,
    delete: bool,
) -> bool {
    catalog::allowed(
        db,
        user,
        t,
        Privileges { select: false, insert, update, delete, create: false },
    )
}

/// Statements on rows change the rows of the table that is named and nothing else, and only
/// for those who have the privilege for it: to insert, to update or to delete. The count is
/// that of the rows that came, changed or went.
pub proof fn law_row_statements(
    cx: CxModel,
    n: Name,
    names: Idents,
    feed: Feed,
    assigns: Assigns,
    filter: Expr,
)
    requires
        cx.db.tables.len() <= usize::MAX,
    ensures
        change::insertion(cx, n, names, feed) matches Ok(c) ==> (catalog::resolved(
            cx.db.tables,
            cx.path,
            n,
        ) matches Some(i) && may(cx.db, cx.user, cx.db.tables[i as int], true, false, false) && (
        dml::inserted(cx, cx.db.tables[i as int], names, feed) matches Ok(f) && rows_changed(
            cx.db,
            c.db,
            i as int,
            f.rows,
        ) && c.db.draws == f.left && c.count == (f.rows.len() - cx.db.tables[i as int].rows.len())
            as u64)),
        change::replacement(cx, n, assigns, filter) matches Ok(c) ==> (catalog::resolved(
            cx.db.tables,
            cx.path,
            n,
        ) matches Some(i) && may(cx.db, cx.user, cx.db.tables[i as int], false, true, false) && (
        dml::updated(cx, cx.db.tables[i as int], assigns, filter) matches Ok(f) && rows_changed(
            cx.db,
            c.db,
            i as int,
            f.rows,
        ) && c.db.draws == f.left && c.count == f.count)),
        change::removal(cx, n, filter) matches Ok(c) ==> (catalog::resolved(
            cx.db.tables,
            cx.path,
            n,
        ) matches Some(i) && may(cx.db, cx.user, cx.db.tables[i as int], false, false, true) && (
        dml::deleted(cx, cx.db.tables[i as int], filter) matches Ok(f) && rows_changed(
            cx.db,
            c.db,
            i as int,
            f.rows,
        ) && c.db.draws == cx.db.draws && c.count == f.count)),
{
    if n.schema is Some {
        law_qualified_name(cx.db.tables, cx.path, n);
    } else {
        law_search_path(cx.db.tables, cx.path, n);
    }
}

/// An insertion with ON CONFLICT takes the privilege to insert and, if it may change rows, also
/// the one to update. It changes the rows of the table that is named and counts the rows that
/// it added or changed.
pub proof fn law_upsert_statement(
    cx: CxModel,
    n: Name,
    names: Idents,
    feed: Feed,
    action: Conflict,
)
    requires
        cx.db.tables.len() <= usize::MAX,
    ensures
        change::merging(cx, n, names, feed, action) matches Ok(c) ==> (catalog::resolved(
            cx.db.tables,
            cx.path,
            n,
        ) matches Some(i) && may(
            cx.db,
            cx.user,
            cx.db.tables[i as int],
            true,
            action is Update,
            false,
        ) && (upsert::upserted(cx, cx.db.tables[i as int], names, feed, action) matches Ok(u)
            && rows_changed(cx.db, c.db, i as int, u.rows) && c.db.draws == u.left && c.count
            == u.touched.len() as u64)),
{
    if n.schema is Some {
        law_qualified_name(cx.db.tables, cx.path, n);
    } else {
        law_search_path(cx.db.tables, cx.path, n);
    }
}

/// A statement on rows is refused for want of a privilege exactly if the table is there and
/// the one who speaks has not got it.
pub proof fn law_denied(cx: CxModel, n: Name, want: Privileges)
    ensures
        change::open_table(cx, n, want) == match catalog::resolved(cx.db.tables, cx.path, n) {
            None => Err::<usize, Fault>(Fault::UndefinedTable { schema: n.schema, name: n.name }),
            Some(i) => if catalog::allowed(cx.db, cx.user, cx.db.tables[i as int], want) {
                Ok::<usize, Fault>(i)
            } else {
                Err::<usize, Fault>(Fault::Denied { name: n.name })
            },
        },
{
}

proof fn lemma_repeated(cs: Columns, a: int, b: int, name: usize)
    ensures
        change::repeated(cs) is None && writes::is_named_at(cs, a, name) && writes::is_named_at(
            cs,
            b,
            name,
        ) ==> a == b,
    decreases cs,
{
    if let Columns::Cons(c, rest) = cs {
        lemma_repeated(*rest, a - 1, b - 1, name);
        writes::lemma_named_column(*rest, c.name);
        assert(a > 0 ==> writes::is_named_at(cs, a, name) == writes::is_named_at(
            *rest,
            a - 1,
            name,
        ));
        assert(b > 0 ==> writes::is_named_at(cs, b, name) == writes::is_named_at(
            *rest,
            b - 1,
            name,
        ));
    }
}

proof fn lemma_twice(cs: Columns)
    ensures
        change::repeated(cs) matches Some(name) ==> exists|a: int, b: int|
            a != b && #[trigger] writes::is_named_at(cs, a, name)
                && #[trigger] writes::is_named_at(cs, b, name),
    decreases cs,
{
    if let Columns::Cons(c, rest) = cs {
        lemma_twice(*rest);
        writes::lemma_named_column(*rest, c.name);
        if catalog::column_named(*rest, c.name) is Some {
            let j = choose|j: int| #[trigger]
                writes::is_named_at(*rest, j, c.name) && writes::column_at(*rest, j)
                    == catalog::column_named(*rest, c.name);
            let name = change::repeated(cs)->Some_0;
            assert(name == c.name);
            assert(j >= 0);
            assert(writes::is_named_at(cs, 0, name));
            assert(writes::is_named_at(cs, j + 1, name));
            assert(exists|a: int, b: int|
                a != b && #[trigger] writes::is_named_at(cs, a, name)
                    && #[trigger] writes::is_named_at(cs, b, name));
        } else if let Some(name) = change::repeated(*rest) {
            let (a, b) = choose|a: int, b: int|
                a != b && #[trigger] writes::is_named_at(*rest, a, name)
                    && #[trigger] writes::is_named_at(*rest, b, name);
            assert(change::repeated(cs) == Some(name));
            assert(writes::is_named_at(cs, a + 1, name));
            assert(writes::is_named_at(cs, b + 1, name));
            assert(a + 1 != b + 1);
            assert(exists|a: int, b: int|
                a != b && #[trigger] writes::is_named_at(cs, a, name)
                    && #[trigger] writes::is_named_at(cs, b, name));
        }
    }
}

/// No two columns of a table that is made have one name.
pub proof fn law_columns_differ(cs: Columns)
    ensures
        change::repeated(cs) is None <==> forall|a: int, b: int, name: usize|
            #[trigger] writes::is_named_at(cs, a, name) && #[trigger] writes::is_named_at(
                cs,
                b,
                name,
            ) ==> a == b,
{
    lemma_twice(cs);
    if change::repeated(cs) is None {
        assert forall|a: int, b: int, name: usize|
            #[trigger] writes::is_named_at(cs, a, name) && #[trigger] writes::is_named_at(
                cs,
                b,
                name,
            ) implies a == b by {
            lemma_repeated(cs, a, b, name);
        }
    }
}

/// A table that is made is the last one, belongs to the one who made it, has the columns that
/// were stated and no rows; all else stays. Without a parent nothing but a table of that name
/// or a repeated column stands in its way, and with IF NOT EXISTS such a table stays as it is.
pub proof fn law_table_made(cx: CxModel, n: Name, quiet: bool, cs: Columns)
    requires
        cx.db.tables.len() < usize::MAX,
    ensures
        change::new_schema(cx, n) matches Ok(schema) ==> {
            let r = change::table_creation(cx, n, quiet, cs, None);
            if has_table(cx.db.tables, schema, n.name) {
                if quiet {
                    r matches Ok(c) && c.db == cx.db
                } else {
                    r == Err::<change::Change, Fault>(Fault::DuplicateTable { name: n.name })
                }
            } else if change::repeated(cs) is None {
                r matches Ok(c) && {
                    let last = cx.db.tables.len() as int;
                    &&& same_but_tables(cx.db, c.db)
                    &&& c.db.draws == cx.db.draws
                    &&& c.db.tables.len() == last + 1
                    &&& c.db.tables.drop_last() == cx.db.tables
                    &&& is_table(c.db.tables[last], schema, n.name)
                    &&& c.db.tables[last].owner == cx.user
                    &&& c.db.tables[last].columns == cs
                    &&& c.db.tables[last].rows.len() == 0
                    &&& catalog::resolved(
                        c.db.tables,
                        cx.path,
                        Name { schema: Some(schema), name: n.name },
                    ) == Some(last as usize)
                }
            } else {
                r is Err
            }
        },
{
    if let Ok(schema) = change::new_schema(cx, n) {
        lemma_table_place(cx.db.tables, schema, n.name, 0);
        let after = change::with_table(cx.db, schema, n.name, cx.user, cs);
        lemma_table_place(after.tables, schema, n.name, 0);
        assert(after.tables.drop_last() =~= cx.db.tables);
        let last = cx.db.tables.len() as int;
        assert(is_table(after.tables[last], schema, n.name));
        if catalog::table_place(cx.db.tables, schema, n.name, 0) is None {
            assert forall|k: int| 0 <= k < last implies !is_table(
                #[trigger] after.tables[k],
                schema,
                n.name,
            ) by {
                assert(after.tables[k] == cx.db.tables[k]);
            }
        }
    }
}

proof fn lemma_appended(a: Columns, b: Columns, name: usize)
    ensures
        catalog::column_named(catalog::columns_append(a, b), name) == match catalog::column_named(
            a,
            name,
        ) {
            Some(c) => Some(c),
            None => catalog::column_named(b, name),
        },
        catalog::columns_len(catalog::columns_append(a, b)) == catalog::columns_len(a)
            + catalog::columns_len(b),
    decreases a,
{
    if let Columns::Cons(_, rest) = a {
        lemma_appended(*rest, b, name);
    }
}

proof fn lemma_own(parent: Columns, cs: Columns, name: usize)
    ensures
        change::own_columns(parent, cs) matches Ok(own) ==> {
            &&& catalog::column_named(parent, name) is None ==> catalog::column_named(own, name)
                == catalog::column_named(cs, name)
            &&& catalog::column_named(parent, name) is Some ==> catalog::column_named(own, name)
                is None
        },
    decreases cs,
{
    if let Columns::Cons(_, rest) = cs {
        lemma_own(parent, *rest, name);
    }
}

/// A table that inherits has each column of its parent and, besides, each column of its own
/// that the parent has not got.
pub proof fn law_inherited_columns(
    cx: CxModel,
    n: Name,
    quiet: bool,
    cs: Columns,
    p: Name,
    name: usize,
)
    requires
        cx.db.tables.len() < usize::MAX,
        change::new_schema(cx, n) is Ok,
        !has_table(cx.db.tables, change::new_schema(cx, n)->Ok_0, n.name),
    ensures
        change::table_creation(cx, n, quiet, cs, Some(p)) matches Ok(c) ==> (catalog::resolved(
            cx.db.tables,
            cx.path,
            p,
        ) matches Some(i) && {
            let parent = cx.db.tables[i as int].columns;
            let made = c.db.tables[cx.db.tables.len() as int];
            &&& c.db.tables.drop_last() == cx.db.tables
            &&& same_but_tables(cx.db, c.db)
            &&& made.rows.len() == 0
            &&& made.owner == cx.user
            &&& catalog::column_named(made.columns, name) == match catalog::column_named(
                parent,
                name,
            ) {
                Some(x) => Some(x),
                None => catalog::column_named(cs, name),
            }
        }),
{
    let schema = change::new_schema(cx, n)->Ok_0;
    lemma_table_place(cx.db.tables, schema, n.name, 0);
    if let Some(i) = catalog::resolved(cx.db.tables, cx.path, p) {
        let parent = cx.db.tables[i as int].columns;
        lemma_own(parent, cs, name);
        if let Ok(own) = change::own_columns(parent, cs) {
            lemma_appended(parent, own, name);
        }
        if let Ok(c) = change::table_creation(cx, n, quiet, cs, Some(p)) {
            assert(c.db.tables.drop_last() =~= cx.db.tables);
        }
    }
}

/// The privileges on all objects but one are those with other objects.
pub proof fn lemma_without_object(gs: Seq<Grant>, o: Object)
    ensures
        change::without_object(gs, o) == gs.filter(|g: Grant| g.object != o),
    decreases gs.len(),
{
    reveal(Seq::filter);
    if gs.len() > 0 {
        lemma_without_object(gs.drop_last(), o);
    }
}

/// DROP TABLE takes away the table that is named and the privileges on it, and nothing else.
/// Only its owner and a superuser may do it.
pub proof fn law_table_dropped(cx: CxModel, n: Name, quiet: bool)
    requires
        cx.db.tables.len() <= usize::MAX,
    ensures
        change::table_removal(cx, n, quiet) == match catalog::resolved(cx.db.tables, cx.path, n) {
            None => if quiet {
                Ok::<change::Change, Fault>(change::plain(cx.db))
            } else {
                Err::<change::Change, Fault>(
                    Fault::UndefinedTable { schema: n.schema, name: n.name },
                )
            },
            Some(i) => {
                let t = cx.db.tables[i as int];
                if t.owner == cx.user || catalog::may_administer(cx.db.roles, cx.user) {
                    Ok::<change::Change, Fault>(
                        change::plain(
                            DbModel {
                                tables: cx.db.tables.take(i as int) + cx.db.tables.skip(i + 1),
                                grants: cx.db.grants.filter(
                                    |g: Grant| g.object != Object::Table(t.schema, t.name),
                                ),
                                ..cx.db
                            },
                        ),
                    )
                } else {
                    Err::<change::Change, Fault>(Fault::Denied { name: n.name })
                }
            },
        },
{
    if n.schema is Some {
        law_qualified_name(cx.db.tables, cx.path, n);
    } else {
        law_search_path(cx.db.tables, cx.path, n);
    }
    if let Some(i) = catalog::resolved(cx.db.tables, cx.path, n) {
        let t = cx.db.tables[i as int];
        lemma_without_object(cx.db.grants, Object::Table(t.schema, t.name));
        assert(cx.db.tables.remove(i as int) =~= cx.db.tables.take(i as int) + cx.db.tables.skip(
            i + 1,
        ));
    }
}

proof fn lemma_widened_cell(cs: Columns, c: Column, row: Tuple, d: Datum, name: usize)
    requires
        datum::tuple_len(row) == catalog::columns_len(cs),
    ensures
        ({
            let columns = catalog::columns_append(cs, Columns::Cons(c, Box::new(Columns::Nil)));
            let wide = datum::tuple_append(row, Tuple::Cons(d, Box::new(Tuple::Nil)));
            dml::cell_named(columns, wide, name) == if catalog::column_named(cs, name) is Some {
                dml::cell_named(cs, row, name)
            } else if c.name == name {
                d
            } else {
                Datum::Null
            }
        }),
    decreases cs,
{
    reveal_with_fuel(dml::cell_named, 3);
    if let (Columns::Cons(_, more), Tuple::Cons(_, rest)) = (cs, row) {
        lemma_widened_cell(*more, c, *rest, d, name);
    }
}

/// A column that is added has its default in all rows; the other values, the number and the
/// order of the rows stay, and so do the other tables.
pub proof fn law_column_added(cx: CxModel, n: Name, c: Column, r: int, name: usize)
    requires
        cx.db.tables.len() <= usize::MAX,
        validity::db_ok(cx.db),
    ensures
        change::column_addition(cx, n, c) matches Ok(after) ==> (catalog::resolved(
            cx.db.tables,
            cx.path,
            n,
        ) matches Some(i) && {
            let t = cx.db.tables[i as int];
            let u = after.db.tables[i as int];
            &&& t.owner == cx.user || catalog::may_administer(cx.db.roles, cx.user)
            &&& catalog::column_named(t.columns, c.name) is None
            &&& catalog::column_named(u.columns, c.name) == Some(c)
            &&& name != c.name ==> catalog::column_named(u.columns, name)
                == catalog::column_named(t.columns, name)
            &&& u.rows.len() == t.rows.len()
            &&& 0 <= r < t.rows.len() ==> {
                &&& name != c.name ==> dml::cell_named(u.columns, u.rows[r], name)
                    == dml::cell_named(t.columns, t.rows[r], name)
                &&& dml::stored_value(
                    cx.symbols,
                    Column { not_null: false, ..c },
                    dml::filler_of(c),
                ) == Ok::<Datum, Fault>(dml::cell_named(u.columns, u.rows[r], c.name))
            }
            &&& same_but_tables(cx.db, after.db)
            &&& after.db.draws == cx.db.draws
            &&& after.db.tables.len() == cx.db.tables.len()
            &&& forall|k: int|
                0 <= k < cx.db.tables.len() && k != i ==> #[trigger] after.db.tables[k]
                    == cx.db.tables[k]
        }),
{
    if n.schema is Some {
        law_qualified_name(cx.db.tables, cx.path, n);
    } else {
        law_search_path(cx.db.tables, cx.path, n);
    }
    if let Ok(after) = change::column_addition(cx, n, c) {
        let i = catalog::resolved(cx.db.tables, cx.path, n)->Some_0;
        let t = cx.db.tables[i as int];
        let u = after.db.tables[i as int];
        let one = Columns::Cons(c, Box::new(Columns::Nil));
        lemma_appended(t.columns, one, name);
        lemma_appended(t.columns, one, c.name);
        reveal_with_fuel(catalog::column_named, 2);
        let d = dml::stored_value(
            cx.symbols,
            Column { not_null: false, ..c },
            dml::filler_of(c),
        )->Ok_0;
        let wide = change::widened(t.rows, d);
        dml::law_inserted_rows(u.columns, Seq::empty(), wide, 0);
        assert(u.rows =~= wide);
        if 0 <= r < t.rows.len() {
            lemma_row_len(t, r);
            lemma_widened_cell(t.columns, c, t.rows[r], d, name);
            lemma_widened_cell(t.columns, c, t.rows[r], d, c.name);
            lemma_no_cell(t.columns, t.rows[r], name);
        }
    }
}

proof fn lemma_fits_len(cs: Columns, row: Tuple)
    requires
        validity::row_fits(cs, row),
    ensures
        datum::tuple_len(row) == catalog::columns_len(cs),
    decreases cs,
{
    if let (Columns::Cons(_, more), Tuple::Cons(_, rest)) = (cs, row) {
        lemma_fits_len(*more, *rest);
    }
}

proof fn lemma_row_len(t: TableModel, r: int)
    requires
        validity::table_ok(t),
        0 <= r < t.rows.len(),
    ensures
        datum::tuple_len(t.rows[r]) == catalog::columns_len(t.columns),
{
    lemma_fits_len(t.columns, t.rows[r]);
}

proof fn lemma_no_cell(cs: Columns, row: Tuple, name: usize)
    ensures
        catalog::column_named(cs, name) is None ==> dml::cell_named(cs, row, name) == Datum::Null,
    decreases cs,
{
    if let (Columns::Cons(_, more), Tuple::Cons(_, rest)) = (cs, row) {
        lemma_no_cell(*more, *rest, name);
    }
}

proof fn lemma_without_column(cs: Columns, name: usize, other: usize)
    ensures
        other != name ==> catalog::column_named(change::without_column(cs, name), other)
            == catalog::column_named(cs, other),
        catalog::column_named(cs, name) is Some ==> catalog::columns_len(
            change::without_column(cs, name),
        ) + 1 == catalog::columns_len(cs),
    decreases cs,
{
    if let Columns::Cons(_, rest) = cs {
        lemma_without_column(*rest, name, other);
    }
}

/// DROP COLUMN takes one column away: the others stay, with their values in all rows, and so
/// do the number of rows and the other tables.
pub proof fn law_column_dropped(
    cx: CxModel,
    n: Name,
    name: usize,
    quiet: bool,
    r: int,
    other: usize,
)
    requires
        cx.db.tables.len() <= usize::MAX,
        validity::db_ok(cx.db),
        other != name,
        catalog::resolved(cx.db.tables, cx.path, n) is Some,
        catalog::column_named(
            cx.db.tables[catalog::resolved(cx.db.tables, cx.path, n)->Some_0 as int].columns,
            name,
        ) is Some,
    ensures
        change::column_removal(cx, n, name, quiet) matches Ok(after) ==> {
            let i = catalog::resolved(cx.db.tables, cx.path, n)->Some_0;
            let t = cx.db.tables[i as int];
            let u = after.db.tables[i as int];
            &&& t.owner == cx.user || catalog::may_administer(cx.db.roles, cx.user)
            &&& catalog::columns_len(u.columns) + 1 == catalog::columns_len(t.columns)
            &&& catalog::column_named(u.columns, other) == catalog::column_named(t.columns, other)
            &&& u.rows.len() == t.rows.len()
            &&& 0 <= r < t.rows.len() ==> dml::cell_named(u.columns, u.rows[r], other)
                == dml::cell_named(t.columns, t.rows[r], other)
            &&& same_but_tables(cx.db, after.db)
            &&& after.db.tables.len() == cx.db.tables.len()
            &&& forall|k: int|
                0 <= k < cx.db.tables.len() && k != i ==> #[trigger] after.db.tables[k]
                    == cx.db.tables[k]
        },
{
    if n.schema is Some {
        law_qualified_name(cx.db.tables, cx.path, n);
    } else {
        law_search_path(cx.db.tables, cx.path, n);
    }
    if let Ok(after) = change::column_removal(cx, n, name, quiet) {
        let i = catalog::resolved(cx.db.tables, cx.path, n)->Some_0;
        let t = cx.db.tables[i as int];
        lemma_without_column(t.columns, name, other);
        if 0 <= r < t.rows.len() {
            assert(validity::table_ok(t));
            assert(validity::row_fits(t.columns, t.rows[r]));
            validity::law_drop_column_keeps_others(t.columns, t.rows[r], name, other);
        }
    }
}

/// Whether an object is a table of a schema at a place below `n`.
pub open spec fn stands_below(db: DbModel, schema: usize, n: int, o: Object) -> bool {
    exists|k: int|
        0 <= k < n && k < db.tables.len() && (#[trigger] db.tables[k]).schema == schema && o
            == Object::Table(db.tables[k].schema, db.tables[k].name)
}

proof fn lemma_without_tables_in(db: DbModel, schema: usize, n: int)
    requires
        0 <= n <= db.tables.len(),
    ensures
        change::without_tables_in(db, schema, n) == (DbModel {
            tables: db.tables.take(n).filter(|t: TableModel| t.schema != schema) + db.tables.skip(n),
            grants: db.grants.filter(|g: Grant| !stands_below(db, schema, n, g.object)),
            ..db
        }),
    decreases n,
{
    reveal(Seq::filter);
    let p = |t: TableModel| t.schema != schema;
    let q = |g: Grant| !stands_below(db, schema, n, g.object);
    if n == 0 {
        assert(db.tables.take(0).filter(p) + db.tables.skip(0) =~= db.tables);
        let all = |g: Grant| true;
        lemma_filter_same(db.grants, q, all);
        lemma_filter_all(db.grants);
    } else {
        let t = db.tables[n - 1];
        assert(db.tables.take(n).drop_last() =~= db.tables.take(n - 1));
        assert(db.tables.take(n).last() == t);
        if t.schema == schema {
            let next = change::without_table(db, n - 1);
            lemma_without_tables_in(next, schema, n - 1);
            assert(next.tables.take(n - 1) =~= db.tables.take(n - 1));
            assert(next.tables.skip(n - 1) =~= db.tables.skip(n));
            let o = Object::Table(t.schema, t.name);
            let here = |g: Grant| g.object != o;
            let rest = |g: Grant| !stands_below(next, schema, n - 1, g.object);
            lemma_without_object(db.grants, o);
            assert(next.grants == db.grants.filter(here));
            lemma_filter_filter(db.grants, here, rest);
            let both = |g: Grant| here(g) && rest(g);
            assert forall|i: int| 0 <= i < db.grants.len() implies both(#[trigger] db.grants[i])
                == q(db.grants[i]) by {
                let x = db.grants[i].object;
                if stands_below(db, schema, n, x) {
                    let k = choose|k: int|
                        0 <= k < n && k < db.tables.len() && (#[trigger] db.tables[k]).schema
                            == schema && x == Object::Table(
                            db.tables[k].schema,
                            db.tables[k].name,
                        );
                    if k < n - 1 {
                        assert(next.tables[k] == db.tables[k]);
                        assert(stands_below(next, schema, n - 1, x));
                    }
                } else {
                    assert(db.tables[n - 1] == t);
                    if stands_below(next, schema, n - 1, x) {
                        let k = choose|k: int|
                            0 <= k < n - 1 && k < next.tables.len() && (
                            #[trigger] next.tables[k]).schema == schema && x == Object::Table(
                                next.tables[k].schema,
                                next.tables[k].name,
                            );
                        assert(next.tables[k] == db.tables[k]);
                    }
                }
            }
            lemma_filter_same(db.grants, both, q);
        } else {
            lemma_without_tables_in(db, schema, n - 1);
            let rest = |g: Grant| !stands_below(db, schema, n - 1, g.object);
            assert forall|i: int| 0 <= i < db.grants.len() implies rest(#[trigger] db.grants[i])
                == q(db.grants[i]) by {
                let x = db.grants[i].object;
                if stands_below(db, schema, n, x) {
                    let k = choose|k: int|
                        0 <= k < n && k < db.tables.len() && (#[trigger] db.tables[k]).schema
                            == schema && x == Object::Table(
                            db.tables[k].schema,
                            db.tables[k].name,
                        );
                    assert(k != n - 1);
                    assert(stands_below(db, schema, n - 1, x));
                }
            }
            lemma_filter_same(db.grants, rest, q);
            assert(db.tables.take(n - 1).filter(p) + db.tables.skip(n - 1) =~= db.tables.take(
                n,
            ).filter(p) + db.tables.skip(n));
        }
    }
}

proof fn lemma_filter_all<A>(s: Seq<A>)
    ensures
        s.filter(|x: A| true) == s,
    decreases s.len(),
{
    reveal(Seq::filter);
    if s.len() > 0 {
        lemma_filter_all(s.drop_last());
        assert(s.drop_last().push(s.last()) =~= s);
    }
}

proof fn lemma_sequences_outside(ss: Seq<Sequence>, schema: usize)
    ensures
        change::sequences_outside(ss, schema) == ss.filter(|s: Sequence| s.schema != schema),
    decreases ss.len(),
{
    reveal(Seq::filter);
    if ss.len() > 0 {
        lemma_sequences_outside(ss.drop_last(), schema);
    }
}

proof fn lemma_drawn_outside(ds: Draws, schema: usize, s: Sequence)
    ensures
        catalog::last_drawn(catalog::drawn_outside(ds, schema), s) == if s.schema == schema {
            0
        } else {
            catalog::last_drawn(ds, s)
        },
    decreases ds,
{
    if let Draws::Cons(_, _, rest) = ds {
        lemma_drawn_outside(*rest, schema, s);
    }
}

/// DROP SCHEMA takes away the schema, its tables and sequences and what was drawn from them,
/// and the privileges on it and on its tables; all that is in other schemas stays.
pub proof fn law_schema_dropped(
    cx: CxModel,
    name: usize,
    quiet: bool,
    cascade: bool,
    s: Sequence,
)
    requires
        change::schema_place(cx.db.schemas, name, 0) is Some,
    ensures
        change::schema_removal(cx, name, quiet, cascade) matches Ok(c) ==> {
            &&& catalog::may_administer(cx.db.roles, cx.user)
            &&& c.db.tables == cx.db.tables.filter(|t: TableModel| t.schema != name)
            &&& c.db.sequences == cx.db.sequences.filter(|x: Sequence| x.schema != name)
            &&& c.db.grants == cx.db.grants.filter(
                |g: Grant|
                    !stands_below(cx.db, name, cx.db.tables.len() as int, g.object) && g.object
                        != Object::Schema(name),
            )
            &&& c.db.roles == cx.db.roles
            &&& c.db.members == cx.db.members
            &&& catalog::last_drawn(c.db.draws, s) == if s.schema == name {
                0
            } else {
                catalog::last_drawn(cx.db.draws, s)
            }
            &&& !cascade ==> c.db.tables == cx.db.tables && c.db.sequences == cx.db.sequences
        },
        change::schema_removal(cx, name, quiet, cascade) is Ok <==> catalog::may_administer(
            cx.db.roles,
            cx.user,
        ) && (cascade || (forall|k: int|
            0 <= k < cx.db.tables.len() ==> (#[trigger] cx.db.tables[k]).schema != name) && (
        forall|k: int|
            0 <= k < cx.db.sequences.len() ==> (#[trigger] cx.db.sequences[k]).schema != name)),
{
    let n = cx.db.tables.len() as int;
    lemma_without_tables_in(cx.db, name, n);
    lemma_sequences_outside(cx.db.sequences, name);
    lemma_drawn_outside(cx.db.draws, name, s);
    let p = |t: TableModel| t.schema != name;
    let q = |x: Sequence| x.schema != name;
    assert(cx.db.tables.take(n) =~= cx.db.tables);
    assert(cx.db.tables.filter(p) + cx.db.tables.skip(n) =~= cx.db.tables.filter(p));
    let bare = change::without_tables_in(cx.db, name, n);
    lemma_without_object(bare.grants, Object::Schema(name));
    let a = |g: Grant| !stands_below(cx.db, name, n, g.object);
    let b = |g: Grant| g.object != Object::Schema(name);
    lemma_filter_filter(cx.db.grants, a, b);
    let both = |g: Grant| a(g) && b(g);
    let stated = |g: Grant|
        !stands_below(cx.db, name, n, g.object) && g.object != Object::Schema(name);
    lemma_filter_same(cx.db.grants, both, stated);
    lemma_filter_kept(cx.db.tables, p);
    lemma_filter_kept(cx.db.sequences, q);
}

proof fn lemma_filter_kept<A>(s: Seq<A>, p: spec_fn(A) -> bool)
    ensures
        s.filter(p).len() <= s.len(),
        s.filter(p).len() == s.len() <==> forall|i: int| 0 <= i < s.len() ==> p(#[trigger] s[i]),
        s.filter(p).len() == s.len() ==> s.filter(p) == s,
    decreases s.len(),
{
    reveal(Seq::filter);
    if s.len() > 0 {
        lemma_filter_kept(s.drop_last(), p);
        assert(s.drop_last().push(s.last()) =~= s);
        if s.filter(p).len() == s.len() {
            assert forall|i: int| 0 <= i < s.len() implies p(#[trigger] s[i]) by {
                if i < s.len() - 1 {
                    assert(s.drop_last()[i] == s[i]);
                }
            }
        }
        if forall|i: int| 0 <= i < s.len() ==> p(#[trigger] s[i]) {
            assert forall|i: int| 0 <= i < s.drop_last().len() implies p(
                #[trigger] s.drop_last()[i],
            ) by {
                assert(s.drop_last()[i] == s[i]);
            }
            assert(p(s[s.len() - 1]));
        }
    }
}

/// CREATE SCHEMA adds one schema, with the name that is given or that of the user.
pub proof fn law_schema_made(cx: CxModel, given: Option<usize>)
    ensures
        ({
            let name = if given is Some {
                given->Some_0
            } else {
                cx.user
            };
            let r = change::schema_creation(cx, given, TableDefs::Nil);
            &&& r is Ok <==> catalog::may_administer(cx.db.roles, cx.user)
                && !cx.db.schemas.contains(name)
            &&& r matches Ok(c) ==> c.db == (DbModel { schemas: cx.db.schemas.push(name), ..cx.db })
        }),
{
}

/// CREATE SEQUENCE adds a sequence, unless there is one of that name in the schema; DROP
/// SEQUENCE takes the one that is named away. A sequence that is made again starts anew, and
/// the others go on where they were.
pub proof fn law_sequences(cx: CxModel, n: Name, quiet: bool, other: Sequence)
    requires
        cx.db.sequences.len() <= usize::MAX,
    ensures
        change::new_schema(cx, n) matches Ok(schema) ==> match change::sequence_creation(cx, n) {
            Ok(c) => {
                let s = Sequence { schema, name: n.name };
                &&& !cx.db.sequences.contains(s)
                &&& c.db == (DbModel { sequences: cx.db.sequences.push(s), ..cx.db })
            },
            Err(_) => cx.db.sequences.contains((Sequence { schema, name: n.name })),
        },
        catalog::sequence_resolved(cx.db.sequences, cx.path, n) matches Some(i) ==> (
        change::sequence_removal(cx, n, quiet) matches Ok(c) && {
            let s = cx.db.sequences[i as int];
            &&& c.db.sequences == cx.db.sequences.take(i as int) + cx.db.sequences.skip(i + 1)
            &&& c.db.tables == cx.db.tables
            &&& same_but_tables(DbModel { sequences: c.db.sequences, ..cx.db }, c.db)
            &&& catalog::last_drawn(c.db.draws, s) == 0
            &&& other != s ==> catalog::last_drawn(c.db.draws, other) == catalog::last_drawn(
                cx.db.draws,
                other,
            )
        }),
{
    law_sequence_name(cx.db.sequences, cx.path, n);
    if let Ok(schema) = change::new_schema(cx, n) {
        lemma_sequence_place(cx.db.sequences, Sequence { schema, name: n.name }, 0);
    }
    if let Some(i) = catalog::sequence_resolved(cx.db.sequences, cx.path, n) {
        let s = cx.db.sequences[i as int];
        lemma_undrawn(cx.db.draws, s);
        if other != s {
            catalog::lemma_without_drawn(cx.db.draws, s, other);
        }
        assert(cx.db.sequences.remove(i as int) =~= cx.db.sequences.take(i as int)
            + cx.db.sequences.skip(i + 1));
    }
}

proof fn lemma_undrawn(ds: Draws, s: Sequence)
    ensures
        catalog::last_drawn(catalog::without_drawn(ds, s), s) == 0,
    decreases ds,
{
    if let Draws::Cons(_, _, rest) = ds {
        lemma_undrawn(*rest, s);
    }
}

/// Something new goes to the schema that is named, if it is there.
pub proof fn law_stated_schema(cx: CxModel, n: Name)
    ensures
        n.schema matches Some(s) ==> (change::new_schema(cx, n) is Ok <==> cx.db.schemas.contains(
            s,
        )) && (change::new_schema(cx, n) matches Ok(x) ==> x == s),
        n.schema is None ==> match catalog::creation_schema(cx.db.schemas, cx.path) {
            Some(s) => change::new_schema(cx, n) == Ok::<usize, Fault>(s),
            None => change::new_schema(cx, n) is Err,
        },
{
}

/// CREATE INDEX asks for a table and columns that are there, and changes nothing.
pub proof fn law_index(cx: CxModel, n: Name, names: Idents)
    ensures
        change::index_creation(cx, n, names) matches Ok(c) ==> c.db == cx.db && c.count == 0,
        change::index_creation(cx, n, names) is Ok <==> (catalog::resolved(
            cx.db.tables,
            cx.path,
            n,
        ) matches Some(i) && forall|k: int|
            0 <= k < results::idents_len(names) ==> catalog::column_named(
                cx.db.tables[i as int].columns,
                #[trigger] results::ident_at(names, k),
            ) is Some),
{
    if let Some(i) = catalog::resolved(cx.db.tables, cx.path, n) {
        lemma_unknown(cx.db.tables[i as int].columns, names);
    }
}

proof fn lemma_unknown(cs: Columns, names: Idents)
    ensures
        change::unknown_column(cs, names) is None <==> forall|k: int|
            0 <= k < results::idents_len(names) ==> catalog::column_named(
                cs,
                #[trigger] results::ident_at(names, k),
            ) is Some,
    decreases names,
{
    if let Idents::Cons(n, rest) = names {
        lemma_unknown(cs, *rest);
        assert(results::ident_at(names, 0) == n);
        assert forall|k: int| 1 <= k implies #[trigger] results::ident_at(names, k)
            == results::ident_at(*rest, k - 1) by {}
        if change::unknown_column(cs, names) is None {
            assert forall|k: int| 0 <= k < results::idents_len(names) implies catalog::column_named(
                cs,
                #[trigger] results::ident_at(names, k),
            ) is Some by {
                if k > 0 {
                    assert(results::ident_at(names, k) == results::ident_at(*rest, k - 1));
                }
            }
        }
        if forall|k: int|
            0 <= k < results::idents_len(names) ==> catalog::column_named(
                cs,
                #[trigger] results::ident_at(names, k),
            ) is Some {
            assert(catalog::column_named(cs, results::ident_at(names, 0)) is Some);
            assert forall|k: int| 0 <= k < results::idents_len(*rest) implies catalog::column_named(
                cs,
                #[trigger] results::ident_at(*rest, k),
            ) is Some by {
                assert(results::ident_at(names, k + 1) == results::ident_at(*rest, k));
            }
        }
    }
}

} // verus!
