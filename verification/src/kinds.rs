//! Laws of the types of expressions and columns, and of expressions that are the same.

use vstd::prelude::*;
use crate::analyze;
use crate::analyze::CxModel;
use crate::analyze::Ty;
use crate::ast::Combine;
use crate::ast::Expr;
use crate::ast::Idents;
use crate::ast::Item;
use crate::ast::Items;
use crate::ast::JoinKind;
use crate::ast::JoinOn;
use crate::ast::Name;
use crate::ast::Orders;
use crate::ast::Privileges;
use crate::ast::Query;
use crate::ast::Select;
use crate::ast::Source;
use crate::catalog;
use crate::datum;
use crate::datum::Arith;
use crate::datum::Compare;
use crate::datum::DataType;
use crate::datum::Datum;
use crate::datum::Tuple;
use crate::eval;
use crate::fault::Fault;
use crate::fields;
use crate::fields::Env;
use crate::fields::Fields;
use crate::results;

verus! {

/// Whether a value is one of a type; null is one of each, and a small number is also a large
/// one.
pub open spec fn is_of(d: Datum, ty: Option<DataType>) -> bool {
    match d {
        Datum::Null => true,
        Datum::Int(_) => ty == Some(DataType::Int) || ty == Some(DataType::BigInt),
        Datum::Big(_) => ty == Some(DataType::BigInt),
        Datum::Bool(_) => ty == Some(DataType::Boolean),
        Datum::Text(_) => ty == Some(DataType::Text),
    }
}

/// The type that two expressions have in common has the values of both, does not depend on
/// their order, and is there unless one is settled and of another kind than the other. It has
/// null if one of them has.
pub proof fn law_common_type(a: Ty, b: Ty, d: Datum)
    ensures
        analyze::common_type(a, b) matches Some(t) ==> {
            &&& is_of(d, a.ty) || is_of(d, b.ty) ==> is_of(d, t.ty)
            &&& a.nullable || b.nullable ==> t.nullable
            &&& a.ty is Some && b.ty is Some && !a.nullable && !b.nullable ==> !t.nullable
            &&& t.ty == a.ty || t.ty == b.ty
            &&& analyze::common_type(b, a) matches Some(u) && u.ty == t.ty && u.nullable
                == t.nullable
        },
        analyze::common_type(a, b) is None <==> a.ty is Some && b.ty is Some && a.ty != b.ty && !(
        is_of(Datum::Int(0), a.ty) && is_of(Datum::Int(0), b.ty)),
        analyze::common_type(a, a) matches Some(t) && t.ty == a.ty,
{
}

/// A calculation has a value of the type that it is said to have.
pub proof fn law_type_of_calculation(op: Arith, a: Ty, b: Ty, d: Datum, e: Datum)
    requires
        is_of(d, a.ty),
        is_of(e, b.ty),
    ensures
        (analyze::calculated_type(a, b), datum::calculated(op, d, e)) matches (Ok(t), Ok(v))
            ==> is_of(v, t.ty),
        analyze::calculated_type(a, b) is Ok ==> (datum::calculated(op, d, e) matches Err(f) ==> !(
        f is NotNumbers)),
{
}

/// A comparison has a truth value or null, and it is null only if one of its values is.
pub proof fn law_type_of_comparison(
    t: Seq<Seq<char>>,
    c: Compare,
    a: Ty,
    b: Ty,
    d: Datum,
    e: Datum,
)
    requires
        is_of(d, a.ty),
        is_of(e, b.ty),
        analyze::compared_type(a, b) is Ok,
    ensures
        analyze::compared_type(a, b)->Ok_0.ty == Some(DataType::Boolean),
        is_of(datum::compared(t, c, d, e), Some(DataType::Boolean)),
        datum::compared(t, c, d, e) == Datum::Null <==> d == Datum::Null || e == Datum::Null,
{
}

/// The columns of a set operation have the names of the left query and, at each place, the
/// type that both queries have in common there. Both have as many columns.
pub proof fn law_columns_of_set_operation(a: Fields, b: Fields, k: nat)
    requires
        analyze::combined_fields(a, b) is Ok,
    ensures
        fields::fields_len(a) == fields::fields_len(b),
        ({
            let c = analyze::combined_fields(a, b)->Ok_0;
            &&& fields::fields_len(c) == fields::fields_len(a)
            &&& k < fields::fields_len(a) ==> (fields::field_at(a, k) matches Some(f)
                && fields::field_at(b, k) matches Some(g) && fields::field_at(c, k) matches Some(h)
                && h.name == f.name && (analyze::common_type(
                Ty { ty: f.ty, nullable: f.nullable },
                Ty { ty: g.ty, nullable: g.nullable },
            ) matches Some(t) && h.ty == t.ty && h.nullable == t.nullable))
        }),
    decreases a,
{
    if let (Fields::Cons(_, more), Fields::Cons(_, rest)) = (a, b) {
        if k > 0 {
            law_columns_of_set_operation(*more, *rest, (k - 1) as nat);
        } else {
            law_columns_of_set_operation(*more, *rest, 0);
        }
    }
}

/// Expressions that are taken for the same have the same value in every row, so that one of
/// them can stand for a value that was grouped by the other.
pub proof fn law_alike(
    cx: CxModel,
    fs: Fields,
    row: Tuple,
    outer: Env,
    group: Option<Seq<Tuple>>,
    a: Expr,
    b: Expr,
)
    requires
        analyze::alike(fs, a, b),
    ensures
        eval::expr_value(cx, Env::Frame(&fs, &row, &outer), group, a) == eval::expr_value(
            cx,
            Env::Frame(&fs, &row, &outer),
            group,
            b,
        ),
    decreases a,
{
    match (a, b) {
        (Expr::Not(x), Expr::Not(y)) => law_alike(cx, fs, row, outer, group, *x, *y),
        (Expr::Negate(x), Expr::Negate(y)) => law_alike(cx, fs, row, outer, group, *x, *y),
        (Expr::And(x, u), Expr::And(y, v)) => {
            law_alike(cx, fs, row, outer, group, *x, *y);
            law_alike(cx, fs, row, outer, group, *u, *v);
        },
        (Expr::Or(x, u), Expr::Or(y, v)) => {
            law_alike(cx, fs, row, outer, group, *x, *y);
            law_alike(cx, fs, row, outer, group, *u, *v);
        },
        (Expr::Compare(_, x, u), Expr::Compare(_, y, v)) => {
            law_alike(cx, fs, row, outer, group, *x, *y);
            law_alike(cx, fs, row, outer, group, *u, *v);
        },
        (Expr::Arith(_, x, u), Expr::Arith(_, y, v)) => {
            law_alike(cx, fs, row, outer, group, *x, *y);
            law_alike(cx, fs, row, outer, group, *u, *v);
        },
        (Expr::IsNull(x, _), Expr::IsNull(y, _)) => law_alike(cx, fs, row, outer, group, *x, *y),
        (Expr::Cast(x, _), Expr::Cast(y, _)) => law_alike(cx, fs, row, outer, group, *x, *y),
        (Expr::Call(_, _, x, u, p), Expr::Call(_, _, y, v, q)) => {
            law_alike(cx, fs, row, outer, group, *x, *y);
            law_alike(cx, fs, row, outer, group, *u, *v);
            law_alike(cx, fs, row, outer, group, *p, *q);
        },
        _ => {},
    }
}

/// A condition is a truth value; what is joined by AND, OR and NOT has to be one, and so does
/// what comes out.
pub proof fn law_type_of_condition(cx: CxModel, env: Env, agg: bool, x: Box<Expr>, y: Box<Expr>)
    ensures
        analyze::condition_type(cx, env, agg, *x) is Ok <==> (analyze::expr_type(cx, env, agg, *x)
            matches Ok(t) && (t.ty is None || t.ty == Some(DataType::Boolean))),
        analyze::condition_type(cx, env, agg, *x) matches Ok(t) ==> t.ty == Some(
            DataType::Boolean,
        ),
        analyze::expr_type(cx, env, agg, Expr::And(x, y)) is Ok <==> analyze::condition_type(
            cx,
            env,
            agg,
            *x,
        ) is Ok && analyze::condition_type(cx, env, agg, *y) is Ok,
        analyze::expr_type(cx, env, agg, Expr::Or(x, y)) is Ok <==> analyze::condition_type(
            cx,
            env,
            agg,
            *x,
        ) is Ok && analyze::condition_type(cx, env, agg, *y) is Ok,
        analyze::expr_type(cx, env, agg, Expr::Not(x)) is Ok <==> analyze::condition_type(
            cx,
            env,
            agg,
            *x,
        ) is Ok,
{
}

/// A select list of expressions has one column for each, named by its alias or, without one,
/// as the expression is, and of the type of the expression.
pub proof fn law_names_of_columns(
    cx: CxModel,
    env: Env,
    src: Fields,
    items: Items,
    k: int,
)
    requires
        results::all_expressions(items),
        analyze::items_fields(cx, env, src, items) is Ok,
    ensures
        ({
            let fs = analyze::items_fields(cx, env, src, items)->Ok_0;
            &&& fields::fields_len(fs) == results::items_len(items)
            &&& 0 <= k < results::items_len(items) ==> (results::item_at(items, k)
                matches Item::Expr(e, alias) && fields::field_at(fs, k as nat) matches Some(f)
                && analyze::expr_type(cx, env, true, *e) matches Ok(t) && f.ty == t.ty && f.nullable
                == t.nullable && f.name == if alias is Some {
                alias->Some_0
            } else {
                analyze::item_name(*e)
            })
        }),
    decreases items,
{
    if let Items::Cons(item, rest) = items {
        assert(results::item_at(items, 0) == item);
        assert forall|j: int| 0 <= j < results::items_len(*rest) implies #[trigger] results::item_at(
            *rest,
            j,
        ) is Expr by {
            assert(results::item_at(items, j + 1) == results::item_at(*rest, j));
        }
        law_names_of_columns(cx, env, src, *rest, k - 1);
        let first = analyze::item_fields(cx, env, src, item)->Ok_0;
        let more = analyze::items_fields(cx, env, src, *rest)->Ok_0;
        reveal_with_fuel(fields::fields_append, 2);
        reveal_with_fuel(fields::fields_len, 2);
        if k > 0 {
            let fs = analyze::items_fields(cx, env, src, items)->Ok_0;
            assert(fields::field_at(fs, k as nat) == fields::field_at(more, (k - 1) as nat));
            assert(results::item_at(items, k) == results::item_at(*rest, k - 1));
        }
    }
}

/// A column keeps its name through casts, whatever table it is of.
pub proof fn law_name_of_cast(x: Box<Expr>, ty: DataType, q: Option<usize>, n: usize)
    ensures
        analyze::item_name(Expr::Cast(x, ty)) == analyze::item_name(*x),
        analyze::item_name(Expr::Col(q, n)) == n,
{
}

/// Whether a name means a table that is stored, and not a query that WITH gave the name to.
pub open spec fn is_stored(cx: CxModel, n: Name, i: usize) -> bool {
    &&& catalog::resolved(cx.db.tables, cx.path, n) == Some(i)
    &&& n.schema is Some || analyze::named_fields(cx.named, n.name) is None
}

/// Only those who may select from a table can read it: for others a query that reads it is
/// refused.
pub proof fn law_reading(
    cx: CxModel,
    env: Env,
    n: Name,
    alias: Option<usize>,
    i: usize,
    s: Box<Select>,
)
    requires
        is_stored(cx, n, i),
    ensures
        ({
            let may = catalog::allowed(
                cx.db,
                cx.user,
                cx.db.tables[i as int],
                Privileges {
                    select: true,
                    insert: false,
                    update: false,
                    delete: false,
                    create: false,
                },
            );
            &&& analyze::source_fields(cx, env, Source::Table(n, alias)) is Ok <==> may
            &&& !may && s.source == Source::Table(n, alias) ==> analyze::query_fields(
                cx,
                env,
                Query::Select(s),
            ) is Err
        }),
{
    if s.source == Source::Table(n, alias) {
        assert(analyze::query_fields(cx, env, Query::Select(s)) == analyze::select_fields(
            cx,
            env,
            *s,
        ));
    }
}

/// Each part of a query is looked at: the source of a block, both sides of a join, the query
/// in a source, both sides of a set operation, and a query that is sorted or paged.
pub proof fn law_parts_are_checked(
    cx: CxModel,
    env: Env,
    s: Box<Select>,
    kind: JoinKind,
    a: Box<Source>,
    b: Box<Source>,
    on: JoinOn,
    op: Combine,
    all: bool,
    p: Box<Query>,
    q: Box<Query>,
    alias: usize,
    cols: Box<Idents>,
    orders: Box<Orders>,
    limit: Option<u64>,
    offset: u64,
)
    ensures
        analyze::query_fields(cx, env, Query::Select(s)) is Ok ==> analyze::source_fields(
            cx,
            env,
            s.source,
        ) is Ok,
        analyze::source_fields(cx, env, Source::Join(kind, a, b, on)) is Ok
            ==> analyze::source_fields(cx, env, *a) is Ok && analyze::source_fields(cx, env, *b)
            is Ok,
        analyze::source_fields(cx, env, Source::Sub(q, alias, cols)) is Ok
            <==> analyze::query_fields(cx, env, *q) is Ok,
        analyze::query_fields(cx, env, Query::Combined(op, all, p, q)) is Ok
            ==> analyze::query_fields(cx, env, *p) is Ok && analyze::query_fields(cx, env, *q)
            is Ok,
        analyze::query_fields(cx, env, Query::Sorted(q, orders, limit, offset)) matches Ok(fs)
            ==> analyze::query_fields(cx, env, *q) == Ok::<Fields, Fault>(fs),
{
    assert(analyze::query_fields(cx, env, Query::Select(s)) == analyze::select_fields(
        cx,
        env,
        *s,
    ));
}

} // verus!
