//! The types of the parameters of a statement, as their surroundings suggest them.

use vstd::prelude::*;
use crate::analyze;
use crate::analyze::Cx;
use crate::analyze::CxModel;
use crate::analyze::Named;
use crate::ast::Assigns;
use crate::ast::Conflict;
use crate::ast::Expr;
use crate::ast::ExprRows;
use crate::ast::Exprs;
use crate::ast::Feed;
use crate::ast::Idents;
use crate::ast::Item;
use crate::ast::Items;
use crate::ast::JoinOn;
use crate::ast::Orders;
use crate::ast::Query;
use crate::ast::Select;
use crate::ast::Source;
use crate::ast::Stmt;
use crate::ast::TextFn;
use crate::ast::Whens;
use crate::catalog;
use crate::ast::Columns;
use crate::datum::DataType;
use crate::datum::Tuple;
use crate::dml;
use crate::fields;
use crate::fields::Env;
use crate::fields::Fields;
use crate::returning;
use crate::symbols;

verus! {

/// The first of two suggestions.
pub open spec fn either(a: Option<DataType>, b: Option<DataType>) -> Option<DataType>
{
    match a {
        Some(t) => Some(t),
        None => b,
    }
}

/// The type of an expression, if it has one.
pub open spec fn found_type(cx: CxModel, env: Env, e: Expr) -> Option<DataType>
{
    match analyze::expr_type(cx, env, true, e) {
        Ok(t) => t.ty,
        Err(_) => None,
    }
}

/// The type of a number that is calculated with one of type `t`.
pub open spec fn number_type(t: Option<DataType>, want: Option<DataType>) -> Option<DataType>
{
    match t {
        Some(x) => Some(x),
        None => match want {
            Some(x) => Some(x),
            None => Some(DataType::Int),
        },
    }
}

/// The type that an expression suggests for parameter `k`, where the expression
/// itself is to have the type `want`.
pub open spec fn hint(
    cx: CxModel,
    env: Env,
    k: u64,
    want: Option<DataType>,
    e: Expr,
) -> Option<DataType>
    decreases e, 0int,
{
    match e {
        Expr::Param(n) => if n == k { want } else { None },
        Expr::Not(x) => hint(cx, env, k, Some(DataType::Boolean), *x),
        Expr::Negate(x) => hint(cx, env, k, number_type(None, want), *x),
        Expr::And(x, y) => either(
            hint(cx, env, k, Some(DataType::Boolean), *x),
            hint(cx, env, k, Some(DataType::Boolean), *y),
        ),
        Expr::Or(x, y) => either(
            hint(cx, env, k, Some(DataType::Boolean), *x),
            hint(cx, env, k, Some(DataType::Boolean), *y),
        ),
        Expr::Compare(_, x, y) => either(
            hint(cx, env, k, found_type(cx, env, *y), *x),
            hint(cx, env, k, found_type(cx, env, *x), *y),
        ),
        Expr::Arith(_, x, y) => either(
            hint(cx, env, k, number_type(found_type(cx, env, *y), want), *x),
            hint(cx, env, k, number_type(found_type(cx, env, *x), want), *y),
        ),
        Expr::IsNull(x, _) => hint(cx, env, k, None, *x),
        Expr::InList(x, list, _) => either(
            hint(cx, env, k, first_type(cx, env, *list), *x),
            list_hint(cx, env, k, found_type(cx, env, *x), *list),
        ),
        Expr::InQuery(x, q, _) => either(
            hint(cx, env, k, column_type(cx, env, *q), *x),
            query_hint(cx, env, k, *q),
        ),
        Expr::Between(x, y, z, _) => either(
            hint(cx, env, k, either(found_type(cx, env, *y), found_type(cx, env, *z)), *x),
            either(
                hint(cx, env, k, found_type(cx, env, *x), *y),
                hint(cx, env, k, found_type(cx, env, *x), *z),
            ),
        ),
        Expr::Exists(q) => query_hint(cx, env, k, *q),
        Expr::Scalar(q) => query_hint(cx, env, k, *q),
        Expr::Case(whens, otherwise) => either(
            whens_hint(cx, env, k, either(want, found_type(cx, env, e)), *whens),
            hint(cx, env, k, either(want, found_type(cx, env, e)), *otherwise),
        ),
        Expr::Coalesce(list) => list_hint(cx, env, k, either(want, found_type(cx, env, e)), *list),
        Expr::Agg(_, _, x) => hint(cx, env, k, want, *x),
        Expr::Cast(x, ty) => hint(cx, env, k, Some(ty), *x),
        Expr::Like(x, y, _) => either(
            hint(cx, env, k, Some(DataType::Text), *x),
            hint(cx, env, k, Some(DataType::Text), *y),
        ),
        Expr::Switch(x, whens, otherwise) => either(
            hint(cx, env, k, first_case_type(cx, env, *whens), *x),
            either(
                switch_hint(
                    cx,
                    env,
                    k,
                    found_type(cx, env, *x),
                    either(want, found_type(cx, env, e)),
                    *whens,
                ),
                hint(cx, env, k, either(want, found_type(cx, env, e)), *otherwise),
            ),
        ),
        Expr::Call(f, _, x, y, z) => either(
            hint(cx, env, k, argument_type(false), *x),
            either(
                hint(
                    cx,
                    env,
                    k,
                    argument_type(
                        f == TextFn::Substring || f == TextFn::Lpad || f == TextFn::Rpad || f == TextFn::Repeat,
                    ),
                    *y,
                ),
                hint(cx, env, k, argument_type(f == TextFn::Substring), *z),
            ),
        ),
        Expr::NullIf(x, y) => either(
            hint(cx, env, k, found_type(cx, env, *y), *x),
            hint(cx, env, k, found_type(cx, env, *x), *y),
        ),
        _ => None,
    }
}

/// The type of the first of several expressions that has one.
pub open spec fn first_type(cx: CxModel, env: Env, es: Exprs) -> Option<DataType>
    decreases es,
{
    match es {
        Exprs::Nil => None,
        Exprs::Cons(e, rest) => either(found_type(cx, env, *e), first_type(cx, env, *rest)),
    }
}

/// The type of the first column of a query.
pub open spec fn column_type(cx: CxModel, env: Env, q: Query) -> Option<DataType>
{
    match analyze::query_fields(cx, env, q) {
        Ok(Fields::Cons(f, _)) => f.ty,
        _ => None,
    }
}

/// The type that one of several expressions of the same type suggests.
pub open spec fn list_hint(
    cx: CxModel,
    env: Env,
    k: u64,
    want: Option<DataType>,
    es: Exprs,
) -> Option<DataType>
    decreases es, 0int,
{
    match es {
        Exprs::Nil => None,
        Exprs::Cons(e, rest) => either(
            hint(cx, env, k, want, *e),
            list_hint(cx, env, k, want, *rest),
        ),
    }
}

/// The type that the branches of a case expression suggest.
pub open spec fn whens_hint(
    cx: CxModel,
    env: Env,
    k: u64,
    want: Option<DataType>,
    ws: Whens,
) -> Option<DataType>
    decreases ws, 0int,
{
    match ws {
        Whens::Nil => None,
        Whens::Cons(c, x, rest) => either(
            hint(cx, env, k, Some(DataType::Boolean), *c),
            either(hint(cx, env, k, want, *x), whens_hint(cx, env, k, want, *rest)),
        ),
    }
}

/// The type of a value that a function on texts takes.
pub open spec fn argument_type(number: bool) -> Option<DataType>
{
    if number {
        Some(DataType::Int)
    } else {
        Some(DataType::Text)
    }
}

/// The type of the first value that a case expression compares with that has one.
pub open spec fn first_case_type(cx: CxModel, env: Env, ws: Whens) -> Option<DataType>
    decreases ws,
{
    match ws {
        Whens::Nil => None,
        Whens::Cons(c, _, rest) => either(found_type(cx, env, *c), first_case_type(cx, env, *rest)),
    }
}

/// The type that the branches of a case expression suggest that compares a value
/// of the type `of`.
pub open spec fn switch_hint(
    cx: CxModel,
    env: Env,
    k: u64,
    of: Option<DataType>,
    want: Option<DataType>,
    ws: Whens,
) -> Option<DataType>
    decreases ws, 0int,
{
    match ws {
        Whens::Nil => None,
        Whens::Cons(c, x, rest) => either(
            hint(cx, env, k, of, *c),
            either(hint(cx, env, k, want, *x), switch_hint(cx, env, k, of, want, *rest)),
        ),
    }
}

/// The type that a query suggests.
pub open spec fn query_hint(cx: CxModel, env: Env, k: u64, q: Query) -> Option<DataType>
    decreases q, 0int,
{
    match q {
        Query::Select(s) => select_hint(cx, env, k, *s),
        Query::Values(rows) => rows_hint(cx, env, k, *rows),
        Query::Series(a, b) => either(
            hint(cx, env, k, Some(DataType::Int), *a),
            hint(cx, env, k, Some(DataType::Int), *b),
        ),
        Query::Combined(_, _, a, b) => either(
            query_hint(cx, env, k, *a),
            query_hint(cx, env, k, *b),
        ),
        Query::Sorted(inner, _, _, _) => query_hint(cx, env, k, *inner),
        Query::With(n, cols, def, body) => match analyze::query_fields(cx, env, *def) {
            Err(_) => query_hint(cx, env, k, *def),
            Ok(fs) => {
                let gs: Fields = fields::renamed(fs, *cols);
                either(
                    query_hint(cx, env, k, *def),
                    query_hint(analyze::with_named(cx, n, gs, Seq::empty()), env, k, *body),
                )
            },
        },
    }
}

/// The type that a list of values suggests.
pub open spec fn rows_hint(cx: CxModel, env: Env, k: u64, rows: ExprRows) -> Option<DataType>
    decreases rows, 0int,
{
    match rows {
        ExprRows::Nil => None,
        ExprRows::Cons(row, rest) => either(
            list_hint(cx, env, k, None, *row),
            rows_hint(cx, env, k, *rest),
        ),
    }
}

/// The type that a query block suggests.
pub open spec fn select_hint(cx: CxModel, env: Env, k: u64, s: Select) -> Option<DataType>
    decreases s, 1int,
{
    match analyze::source_fields(cx, env, s.source) {
        Err(_) => None,
        Ok(src) => either(
            source_hint(cx, env, k, s.source),
            block_hint(cx, Env::Frame(&src, &Tuple::Nil, &env), k, s),
        ),
    }
}

/// The type that the clauses of a query block suggest, over the columns in scope.
pub open spec fn block_hint(cx: CxModel, env: Env, k: u64, s: Select) -> Option<DataType>
    decreases s, 0int,
{
    either(
        hint(cx, env, k, Some(DataType::Boolean), s.filter),
        either(
            items_hint(cx, env, k, s.items),
            either(
                list_hint(cx, env, k, None, s.group),
                either(
                    hint(cx, env, k, Some(DataType::Boolean), s.having),
                    orders_hint(cx, env, k, s.orders),
                ),
            ),
        ),
    )
}

/// The type that a select list suggests.
pub open spec fn items_hint(cx: CxModel, env: Env, k: u64, items: Items) -> Option<DataType>
    decreases items, 0int,
{
    match items {
        Items::Nil => None,
        Items::Cons(item, rest) => either(
            item_hint(cx, env, k, item),
            items_hint(cx, env, k, *rest),
        ),
    }
}

/// The type that an entry of a select list suggests.
pub open spec fn item_hint(cx: CxModel, env: Env, k: u64, item: Item) -> Option<DataType>
    decreases item, 0int,
{
    match item {
        Item::Expr(e, _) => hint(cx, env, k, None, *e),
        _ => None,
    }
}

/// The type that sort keys suggest.
pub open spec fn orders_hint(cx: CxModel, env: Env, k: u64, os: Orders) -> Option<DataType>
    decreases os, 0int,
{
    match os {
        Orders::Nil => None,
        Orders::Cons(e, _, _, rest) => either(
            hint(cx, env, k, None, *e),
            orders_hint(cx, env, k, *rest),
        ),
    }
}

/// The type that a source suggests.
pub open spec fn source_hint(cx: CxModel, env: Env, k: u64, src: Source) -> Option<DataType>
    decreases src, 0int,
{
    match src {
        Source::Sub(q, _, _) => query_hint(cx, env, k, *q),
        Source::Join(_, a, b, on) => match analyze::source_fields(cx, env, src) {
            Err(_) => None,
            Ok(fs) => either(
                source_hint(cx, env, k, *a),
                either(
                    source_hint(cx, env, k, *b),
                    join_hint(cx, Env::Frame(&fs, &Tuple::Nil, &env), k, on),
                ),
            ),
        },
        _ => None,
    }
}

/// The type that the condition of a join suggests.
pub open spec fn join_hint(cx: CxModel, env: Env, k: u64, on: JoinOn) -> Option<DataType>
    decreases on, 0int,
{
    match on {
        JoinOn::On(e) => hint(cx, env, k, Some(DataType::Boolean), *e),
        _ => None,
    }
}

/// The type that the values of a new row suggest, whose columns are `ts`.
pub open spec fn cells_hint(cx: CxModel, k: u64, ts: Columns, es: Exprs) -> Option<DataType>
    decreases es,
{
    match (ts, es) {
        (Columns::Cons(c, others), Exprs::Cons(e, rest)) => either(
            hint(cx, Env::Empty, k, Some(c.ty), *e),
            cells_hint(cx, k, *others, *rest),
        ),
        _ => None,
    }
}

/// The type that the values of new rows suggest, whose columns are `ts`.
pub open spec fn new_rows_hint(cx: CxModel, k: u64, ts: Columns, rows: ExprRows) -> Option<DataType>
    decreases rows,
{
    match rows {
        ExprRows::Nil => None,
        ExprRows::Cons(row, rest) => either(
            cells_hint(cx, k, ts, *row),
            new_rows_hint(cx, k, ts, *rest),
        ),
    }
}

/// The type that assignments to columns of a table suggest.
pub open spec fn assigns_hint(
    cx: CxModel,
    env: Env,
    k: u64,
    cs: Columns,
    assigns: Assigns,
) -> Option<DataType>
    decreases assigns,
{
    match assigns {
        Assigns::Nil => None,
        Assigns::Cons(n, e, rest) => {
            let want: Option<DataType> = match catalog::column_named(cs, n) {
                Some(c) => Some(c.ty),
                None => None,
            };
            either(hint(cx, env, k, want, *e), assigns_hint(cx, env, k, cs, *rest))
        },
    }
}

/// The type that the rows of an `INSERT` suggest.
pub open spec fn feed_hint(
    cx: CxModel,
    k: u64,
    cs: Columns,
    names: Idents,
    feed: Feed,
) -> Option<DataType>
{
    match feed {
        Feed::Values(rows) => match dml::target_columns(cs, names) {
            Ok(ts) => new_rows_hint(cx, k, ts, *rows),
            Err(_) => None,
        },
        Feed::Query(q) => query_hint(cx, Env::Empty, k, *q),
        Feed::Fillers => None,
    }
}

/// The type that the change of a row that is there suggests; the table is at place
/// `i`.
pub open spec fn conflict_hint(cx: CxModel, k: u64, i: usize, action: Conflict) -> Option<DataType>
{
    match action {
        Conflict::Nothing(_) => None,
        Conflict::Update(_, assigns, filter) => {
            let fs: Fields = fields::table_fields(
                cx.db.tables[i as int].columns,
                cx.db.tables[i as int].name,
            );
            let ex: Fields = fields::requalified(fs, symbols::EXCLUDED);
            either(
                assigns_hint(
                    cx,
                    Env::Frame(&fs, &Tuple::Nil, &Env::Frame(&ex, &Tuple::Nil, &Env::Empty)),
                    k,
                    cx.db.tables[i as int].columns,
                    *assigns,
                ),
                hint(
                    cx,
                    Env::Frame(&fs, &Tuple::Nil, &Env::Frame(&ex, &Tuple::Nil, &Env::Empty)),
                    k,
                    Some(DataType::Boolean),
                    *filter,
                ),
            )
        },
    }
}

/// The type that a statement suggests for parameter `k`.
pub open spec fn stmt_hint(cx: CxModel, k: u64, stmt: Stmt) -> Option<DataType>
    decreases stmt,
{
    match stmt {
        Stmt::Query(q) => query_hint(cx, Env::Empty, k, *q),
        Stmt::Insert(n, names, feed) => match catalog::resolved(cx.db.tables, cx.path, n) {
            None => None,
            Some(i) => feed_hint(cx, k, cx.db.tables[i as int].columns, *names, *feed),
        },
        Stmt::Upsert(n, names, feed, action) => match catalog::resolved(cx.db.tables, cx.path, n) {
            None => None,
            Some(i) => either(
                feed_hint(cx, k, cx.db.tables[i as int].columns, *names, *feed),
                conflict_hint(cx, k, i, *action),
            ),
        },
        Stmt::Update(n, assigns, filter) => match catalog::resolved(cx.db.tables, cx.path, n) {
            None => None,
            Some(i) => {
                let fs: Fields = fields::table_fields(
                    cx.db.tables[i as int].columns,
                    cx.db.tables[i as int].name,
                );
                either(
                    assigns_hint(
                        cx,
                        Env::Frame(&fs, &Tuple::Nil, &Env::Empty),
                        k,
                        cx.db.tables[i as int].columns,
                        *assigns,
                    ),
                    hint(
                        cx,
                        Env::Frame(&fs, &Tuple::Nil, &Env::Empty),
                        k,
                        Some(DataType::Boolean),
                        *filter,
                    ),
                )
            },
        },
        Stmt::Delete(n, filter) => match catalog::resolved(cx.db.tables, cx.path, n) {
            None => None,
            Some(i) => {
                let fs: Fields = fields::table_fields(
                    cx.db.tables[i as int].columns,
                    cx.db.tables[i as int].name,
                );
                hint(
                    cx,
                    Env::Frame(&fs, &Tuple::Nil, &Env::Empty),
                    k,
                    Some(DataType::Boolean),
                    *filter,
                )
            },
        },
        Stmt::Returning(s, items) => match returning::table_of(cx, *s) {
            None => None,
            Some(i) => {
                let fs: Fields = fields::table_fields(
                    cx.db.tables[i as int].columns,
                    cx.db.tables[i as int].name,
                );
                either(
                    stmt_hint(cx, k, *s),
                    items_hint(cx, Env::Frame(&fs, &Tuple::Nil, &Env::Empty), k, *items),
                )
            },
        },
        Stmt::Draw(items) => items_hint(cx, Env::Empty, k, *items),
        Stmt::Declare(_, Some(q)) => query_hint(cx, Env::Empty, k, *q),
        _ => None,
    }
}

pub fn suggest_either(a: Option<DataType>, b: Option<DataType>) -> (out: Option<DataType>)
    ensures
        out == either(a, b),
{
    match a {
        Some(t) => Some(t),
        None => b,
    }
}

pub fn suggest_found_type(cx: &Cx, env: &Env, e: &Expr) -> (out: Option<DataType>)
    ensures
        out == found_type(cx@, *env, *e),
{
    match analyze::infer_expr_type(cx, env, true, e) {
        Ok(t) => t.ty,
        Err(_) => None,
    }
}

pub fn suggest_number_type(t: Option<DataType>, want: Option<DataType>) -> (out: Option<DataType>)
    ensures
        out == number_type(t, want),
{
    match t {
        Some(x) => Some(x),
        None => match want {
            Some(x) => Some(x),
            None => Some(DataType::Int),
        },
    }
}

pub fn suggest_hint(
    cx: &Cx,
    env: &Env,
    k: u64,
    want: Option<DataType>,
    e: &Expr,
) -> (out: Option<DataType>)
    ensures
        out == hint(cx@, *env, k, want, *e),
    decreases e, 0int,
{
    match e {
        Expr::Param(n) => if *n == k { want } else { None },
        Expr::Not(x) => suggest_hint(cx, env, k, Some(DataType::Boolean), x),
        Expr::Negate(x) => suggest_hint(cx, env, k, suggest_number_type(None, want), x),
        Expr::And(x, y) => suggest_either(
            suggest_hint(cx, env, k, Some(DataType::Boolean), x),
            suggest_hint(cx, env, k, Some(DataType::Boolean), y),
        ),
        Expr::Or(x, y) => suggest_either(
            suggest_hint(cx, env, k, Some(DataType::Boolean), x),
            suggest_hint(cx, env, k, Some(DataType::Boolean), y),
        ),
        Expr::Compare(_, x, y) => suggest_either(
            suggest_hint(cx, env, k, suggest_found_type(cx, env, y), x),
            suggest_hint(cx, env, k, suggest_found_type(cx, env, x), y),
        ),
        Expr::Arith(_, x, y) => suggest_either(
            suggest_hint(cx, env, k, suggest_number_type(suggest_found_type(cx, env, y), want), x),
            suggest_hint(cx, env, k, suggest_number_type(suggest_found_type(cx, env, x), want), y),
        ),
        Expr::IsNull(x, _) => suggest_hint(cx, env, k, None, x),
        Expr::InList(x, list, _) => suggest_either(
            suggest_hint(cx, env, k, suggest_first_type(cx, env, list), x),
            suggest_list_hint(cx, env, k, suggest_found_type(cx, env, x), list),
        ),
        Expr::InQuery(x, q, _) => suggest_either(
            suggest_hint(cx, env, k, suggest_column_type(cx, env, q), x),
            suggest_query_hint(cx, env, k, q),
        ),
        Expr::Between(x, y, z, _) => suggest_either(
            suggest_hint(
                cx,
                env,
                k,
                suggest_either(suggest_found_type(cx, env, y), suggest_found_type(cx, env, z)),
                x,
            ),
            suggest_either(
                suggest_hint(cx, env, k, suggest_found_type(cx, env, x), y),
                suggest_hint(cx, env, k, suggest_found_type(cx, env, x), z),
            ),
        ),
        Expr::Exists(q) => suggest_query_hint(cx, env, k, q),
        Expr::Scalar(q) => suggest_query_hint(cx, env, k, q),
        Expr::Case(whens, otherwise) => suggest_either(
            suggest_whens_hint(
                cx,
                env,
                k,
                suggest_either(want, suggest_found_type(cx, env, e)),
                whens,
            ),
            suggest_hint(
                cx,
                env,
                k,
                suggest_either(want, suggest_found_type(cx, env, e)),
                otherwise,
            ),
        ),
        Expr::Coalesce(list) => suggest_list_hint(
            cx,
            env,
            k,
            suggest_either(want, suggest_found_type(cx, env, e)),
            list,
        ),
        Expr::Agg(_, _, x) => suggest_hint(cx, env, k, want, x),
        Expr::Cast(x, ty) => suggest_hint(cx, env, k, Some(*ty), x),
        Expr::Like(x, y, _) => suggest_either(
            suggest_hint(cx, env, k, Some(DataType::Text), x),
            suggest_hint(cx, env, k, Some(DataType::Text), y),
        ),
        Expr::Switch(x, whens, otherwise) => suggest_either(
            suggest_hint(cx, env, k, suggest_first_case_type(cx, env, whens), x),
            suggest_either(
                suggest_switch_hint(
                    cx,
                    env,
                    k,
                    suggest_found_type(cx, env, x),
                    suggest_either(want, suggest_found_type(cx, env, e)),
                    whens,
                ),
                suggest_hint(
                    cx,
                    env,
                    k,
                    suggest_either(want, suggest_found_type(cx, env, e)),
                    otherwise,
                ),
            ),
        ),
        Expr::Call(f, _, x, y, z) => suggest_either(
            suggest_hint(cx, env, k, suggest_argument_type(false), x),
            suggest_either(
                suggest_hint(
                    cx,
                    env,
                    k,
                    suggest_argument_type(
                        *f == TextFn::Substring || *f == TextFn::Lpad || *f == TextFn::Rpad || *f == TextFn::Repeat,
                    ),
                    y,
                ),
                suggest_hint(cx, env, k, suggest_argument_type(*f == TextFn::Substring), z),
            ),
        ),
        Expr::NullIf(x, y) => suggest_either(
            suggest_hint(cx, env, k, suggest_found_type(cx, env, y), x),
            suggest_hint(cx, env, k, suggest_found_type(cx, env, x), y),
        ),
        _ => None,
    }
}

pub fn suggest_first_type(cx: &Cx, env: &Env, es: &Exprs) -> (out: Option<DataType>)
    ensures
        out == first_type(cx@, *env, *es),
    decreases es,
{
    match es {
        Exprs::Nil => None,
        Exprs::Cons(e, rest) => suggest_either(
            suggest_found_type(cx, env, e),
            suggest_first_type(cx, env, rest),
        ),
    }
}

pub fn suggest_column_type(cx: &Cx, env: &Env, q: &Query) -> (out: Option<DataType>)
    ensures
        out == column_type(cx@, *env, *q),
{
    match analyze::infer_query_fields(cx, env, q) {
        Ok(Fields::Cons(f, _)) => f.ty,
        _ => None,
    }
}

pub fn suggest_list_hint(
    cx: &Cx,
    env: &Env,
    k: u64,
    want: Option<DataType>,
    es: &Exprs,
) -> (out: Option<DataType>)
    ensures
        out == list_hint(cx@, *env, k, want, *es),
    decreases es, 0int,
{
    match es {
        Exprs::Nil => None,
        Exprs::Cons(e, rest) => suggest_either(
            suggest_hint(cx, env, k, want, e),
            suggest_list_hint(cx, env, k, want, rest),
        ),
    }
}

pub fn suggest_whens_hint(
    cx: &Cx,
    env: &Env,
    k: u64,
    want: Option<DataType>,
    ws: &Whens,
) -> (out: Option<DataType>)
    ensures
        out == whens_hint(cx@, *env, k, want, *ws),
    decreases ws, 0int,
{
    match ws {
        Whens::Nil => None,
        Whens::Cons(c, x, rest) => suggest_either(
            suggest_hint(cx, env, k, Some(DataType::Boolean), c),
            suggest_either(
                suggest_hint(cx, env, k, want, x),
                suggest_whens_hint(cx, env, k, want, rest),
            ),
        ),
    }
}

pub fn suggest_argument_type(number: bool) -> (out: Option<DataType>)
    ensures
        out == argument_type(number),
{
    if number {
        Some(DataType::Int)
    } else {
        Some(DataType::Text)
    }
}

pub fn suggest_first_case_type(cx: &Cx, env: &Env, ws: &Whens) -> (out: Option<DataType>)
    ensures
        out == first_case_type(cx@, *env, *ws),
    decreases ws,
{
    match ws {
        Whens::Nil => None,
        Whens::Cons(c, _, rest) => suggest_either(
            suggest_found_type(cx, env, c),
            suggest_first_case_type(cx, env, rest),
        ),
    }
}

pub fn suggest_switch_hint(
    cx: &Cx,
    env: &Env,
    k: u64,
    of: Option<DataType>,
    want: Option<DataType>,
    ws: &Whens,
) -> (out: Option<DataType>)
    ensures
        out == switch_hint(cx@, *env, k, of, want, *ws),
    decreases ws, 0int,
{
    match ws {
        Whens::Nil => None,
        Whens::Cons(c, x, rest) => suggest_either(
            suggest_hint(cx, env, k, of, c),
            suggest_either(
                suggest_hint(cx, env, k, want, x),
                suggest_switch_hint(cx, env, k, of, want, rest),
            ),
        ),
    }
}

pub fn suggest_query_hint(cx: &Cx, env: &Env, k: u64, q: &Query) -> (out: Option<DataType>)
    ensures
        out == query_hint(cx@, *env, k, *q),
    decreases q, 0int,
{
    match q {
        Query::Select(s) => suggest_select_hint(cx, env, k, s),
        Query::Values(rows) => suggest_rows_hint(cx, env, k, rows),
        Query::Series(a, b) => suggest_either(
            suggest_hint(cx, env, k, Some(DataType::Int), a),
            suggest_hint(cx, env, k, Some(DataType::Int), b),
        ),
        Query::Combined(_, _, a, b) => suggest_either(
            suggest_query_hint(cx, env, k, a),
            suggest_query_hint(cx, env, k, b),
        ),
        Query::Sorted(inner, _, _, _) => suggest_query_hint(cx, env, k, inner),
        Query::With(n, cols, def, body) => match analyze::infer_query_fields(cx, env, def) {
            Err(_) => suggest_query_hint(cx, env, k, def),
            Ok(fs) => {
                let gs: Fields = fs.rename(cols);
                suggest_either(
                    suggest_query_hint(cx, env, k, def),
                    suggest_query_hint(
                        &Cx {
                            db: cx.db,
                            symbols: cx.symbols,
                            path: cx.path,
                            user: cx.user,
                            params: cx.params,
                            named: &Named::Cons(*n, &gs, &Vec::new(), cx.named),
                        },
                        env,
                        k,
                        body,
                    ),
                )
            },
        },
    }
}

pub fn suggest_rows_hint(cx: &Cx, env: &Env, k: u64, rows: &ExprRows) -> (out: Option<DataType>)
    ensures
        out == rows_hint(cx@, *env, k, *rows),
    decreases rows, 0int,
{
    match rows {
        ExprRows::Nil => None,
        ExprRows::Cons(row, rest) => suggest_either(
            suggest_list_hint(cx, env, k, None, row),
            suggest_rows_hint(cx, env, k, rest),
        ),
    }
}

pub fn suggest_select_hint(cx: &Cx, env: &Env, k: u64, s: &Select) -> (out: Option<DataType>)
    ensures
        out == select_hint(cx@, *env, k, *s),
    decreases s, 1int,
{
    match analyze::infer_source_fields(cx, env, &s.source) {
        Err(_) => None,
        Ok(src) => suggest_either(
            suggest_source_hint(cx, env, k, &s.source),
            suggest_block_hint(cx, &Env::Frame(&src, &Tuple::Nil, env), k, s),
        ),
    }
}

pub fn suggest_block_hint(cx: &Cx, env: &Env, k: u64, s: &Select) -> (out: Option<DataType>)
    ensures
        out == block_hint(cx@, *env, k, *s),
    decreases s, 0int,
{
    suggest_either(
        suggest_hint(cx, env, k, Some(DataType::Boolean), &s.filter),
        suggest_either(
            suggest_items_hint(cx, env, k, &s.items),
            suggest_either(
                suggest_list_hint(cx, env, k, None, &s.group),
                suggest_either(
                    suggest_hint(cx, env, k, Some(DataType::Boolean), &s.having),
                    suggest_orders_hint(cx, env, k, &s.orders),
                ),
            ),
        ),
    )
}

pub fn suggest_items_hint(cx: &Cx, env: &Env, k: u64, items: &Items) -> (out: Option<DataType>)
    ensures
        out == items_hint(cx@, *env, k, *items),
    decreases items, 0int,
{
    match items {
        Items::Nil => None,
        Items::Cons(item, rest) => suggest_either(
            suggest_item_hint(cx, env, k, item),
            suggest_items_hint(cx, env, k, rest),
        ),
    }
}

pub fn suggest_item_hint(cx: &Cx, env: &Env, k: u64, item: &Item) -> (out: Option<DataType>)
    ensures
        out == item_hint(cx@, *env, k, *item),
    decreases item, 0int,
{
    match item {
        Item::Expr(e, _) => suggest_hint(cx, env, k, None, e),
        _ => None,
    }
}

pub fn suggest_orders_hint(cx: &Cx, env: &Env, k: u64, os: &Orders) -> (out: Option<DataType>)
    ensures
        out == orders_hint(cx@, *env, k, *os),
    decreases os, 0int,
{
    match os {
        Orders::Nil => None,
        Orders::Cons(e, _, _, rest) => suggest_either(
            suggest_hint(cx, env, k, None, e),
            suggest_orders_hint(cx, env, k, rest),
        ),
    }
}

pub fn suggest_source_hint(cx: &Cx, env: &Env, k: u64, src: &Source) -> (out: Option<DataType>)
    ensures
        out == source_hint(cx@, *env, k, *src),
    decreases src, 0int,
{
    match src {
        Source::Sub(q, _, _) => suggest_query_hint(cx, env, k, q),
        Source::Join(_, a, b, on) => match analyze::infer_source_fields(cx, env, src) {
            Err(_) => None,
            Ok(fs) => suggest_either(
                suggest_source_hint(cx, env, k, a),
                suggest_either(
                    suggest_source_hint(cx, env, k, b),
                    suggest_join_hint(cx, &Env::Frame(&fs, &Tuple::Nil, env), k, on),
                ),
            ),
        },
        _ => None,
    }
}

pub fn suggest_join_hint(cx: &Cx, env: &Env, k: u64, on: &JoinOn) -> (out: Option<DataType>)
    ensures
        out == join_hint(cx@, *env, k, *on),
    decreases on, 0int,
{
    match on {
        JoinOn::On(e) => suggest_hint(cx, env, k, Some(DataType::Boolean), e),
        _ => None,
    }
}

pub fn suggest_cells_hint(cx: &Cx, k: u64, ts: &Columns, es: &Exprs) -> (out: Option<DataType>)
    ensures
        out == cells_hint(cx@, k, *ts, *es),
    decreases es,
{
    match (ts, es) {
        (Columns::Cons(c, others), Exprs::Cons(e, rest)) => suggest_either(
            suggest_hint(cx, &Env::Empty, k, Some(c.ty), e),
            suggest_cells_hint(cx, k, others, rest),
        ),
        _ => None,
    }
}

pub fn suggest_new_rows_hint(
    cx: &Cx,
    k: u64,
    ts: &Columns,
    rows: &ExprRows,
) -> (out: Option<DataType>)
    ensures
        out == new_rows_hint(cx@, k, *ts, *rows),
    decreases rows,
{
    match rows {
        ExprRows::Nil => None,
        ExprRows::Cons(row, rest) => suggest_either(
            suggest_cells_hint(cx, k, ts, row),
            suggest_new_rows_hint(cx, k, ts, rest),
        ),
    }
}

pub fn suggest_assigns_hint(
    cx: &Cx,
    env: &Env,
    k: u64,
    cs: &Columns,
    assigns: &Assigns,
) -> (out: Option<DataType>)
    ensures
        out == assigns_hint(cx@, *env, k, *cs, *assigns),
    decreases assigns,
{
    match assigns {
        Assigns::Nil => None,
        Assigns::Cons(n, e, rest) => {
            let want: Option<DataType> = match cs.named(*n) {
                Some(c) => Some(c.ty),
                None => None,
            };
            suggest_either(
                suggest_hint(cx, env, k, want, e),
                suggest_assigns_hint(cx, env, k, cs, rest),
            )
        },
    }
}

pub fn suggest_feed_hint(
    cx: &Cx,
    k: u64,
    cs: &Columns,
    names: &Idents,
    feed: &Feed,
) -> (out: Option<DataType>)
    ensures
        out == feed_hint(cx@, k, *cs, *names, *feed),
{
    match feed {
        Feed::Values(rows) => match dml::write_target_columns(cs, names) {
            Ok(ts) => suggest_new_rows_hint(cx, k, &ts, rows),
            Err(_) => None,
        },
        Feed::Query(q) => suggest_query_hint(cx, &Env::Empty, k, q),
        Feed::Fillers => None,
    }
}

pub fn suggest_conflict_hint(
    cx: &Cx,
    k: u64,
    i: usize,
    action: &Conflict,
) -> (out: Option<DataType>)
    requires
        i < cx.db.tables.len(),
    ensures
        out == conflict_hint(cx@, k, i, *action),
{
    match action {
        Conflict::Nothing(_) => None,
        Conflict::Update(_, assigns, filter) => {
            let fs: Fields = Fields::of_table(&cx.db.tables[i].columns, cx.db.tables[i].name);
            let ex: Fields = fs.under(symbols::EXCLUDED);
            suggest_either(
                suggest_assigns_hint(
                    cx,
                    &Env::Frame(&fs, &Tuple::Nil, &Env::Frame(&ex, &Tuple::Nil, &Env::Empty)),
                    k,
                    &cx.db.tables[i].columns,
                    assigns,
                ),
                suggest_hint(
                    cx,
                    &Env::Frame(&fs, &Tuple::Nil, &Env::Frame(&ex, &Tuple::Nil, &Env::Empty)),
                    k,
                    Some(DataType::Boolean),
                    filter,
                ),
            )
        },
    }
}

pub fn suggest_stmt_hint(cx: &Cx, k: u64, stmt: &Stmt) -> (out: Option<DataType>)
    ensures
        out == stmt_hint(cx@, k, *stmt),
    decreases stmt,
{
    match stmt {
        Stmt::Query(q) => suggest_query_hint(cx, &Env::Empty, k, q),
        Stmt::Insert(n, names, feed) => match cx.db.resolve(cx.path, *n) {
            None => None,
            Some(i) => suggest_feed_hint(cx, k, &cx.db.tables[i].columns, names, feed),
        },
        Stmt::Upsert(n, names, feed, action) => match cx.db.resolve(cx.path, *n) {
            None => None,
            Some(i) => suggest_either(
                suggest_feed_hint(cx, k, &cx.db.tables[i].columns, names, feed),
                suggest_conflict_hint(cx, k, i, action),
            ),
        },
        Stmt::Update(n, assigns, filter) => match cx.db.resolve(cx.path, *n) {
            None => None,
            Some(i) => {
                let fs: Fields = Fields::of_table(&cx.db.tables[i].columns, cx.db.tables[i].name);
                suggest_either(
                    suggest_assigns_hint(
                        cx,
                        &Env::Frame(&fs, &Tuple::Nil, &Env::Empty),
                        k,
                        &cx.db.tables[i].columns,
                        assigns,
                    ),
                    suggest_hint(
                        cx,
                        &Env::Frame(&fs, &Tuple::Nil, &Env::Empty),
                        k,
                        Some(DataType::Boolean),
                        filter,
                    ),
                )
            },
        },
        Stmt::Delete(n, filter) => match cx.db.resolve(cx.path, *n) {
            None => None,
            Some(i) => {
                let fs: Fields = Fields::of_table(&cx.db.tables[i].columns, cx.db.tables[i].name);
                suggest_hint(
                    cx,
                    &Env::Frame(&fs, &Tuple::Nil, &Env::Empty),
                    k,
                    Some(DataType::Boolean),
                    filter,
                )
            },
        },
        Stmt::Returning(s, items) => match returning::find_table(cx, s) {
            None => None,
            Some(i) => {
                let fs: Fields = Fields::of_table(&cx.db.tables[i].columns, cx.db.tables[i].name);
                suggest_either(
                    suggest_stmt_hint(cx, k, s),
                    suggest_items_hint(cx, &Env::Frame(&fs, &Tuple::Nil, &Env::Empty), k, items),
                )
            },
        },
        Stmt::Draw(items) => suggest_items_hint(cx, &Env::Empty, k, items),
        Stmt::Declare(_, Some(q)) => suggest_query_hint(cx, &Env::Empty, k, q),
        _ => None,
    }
}

} // verus!
