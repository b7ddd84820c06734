//! What a query gives back: the names and types of its columns, and whether all
//! that it refers to is there.

use vstd::prelude::*;
use crate::ast::AggFn;
use crate::ast::Distinct;
use crate::ast::Expr;
use crate::ast::ExprRows;
use crate::ast::Exprs;
use crate::ast::Idents;
use crate::ast::Item;
use crate::ast::Items;
use crate::ast::JoinKind;
use crate::ast::JoinOn;
use crate::ast::Name;
use crate::ast::Orders;
use crate::ast::Over;
use crate::ast::Query;
use crate::ast::Select;
use crate::ast::Source;
use crate::ast::TextFn;
use crate::ast::Whens;
use crate::ast::WindowFn;
use crate::catalog;
use crate::catalog::Db;
use crate::catalog::DbModel;
use crate::datum::DataType;
use crate::datum::Datum;
use crate::datum::Tuple;
use crate::fault::Fault;
use crate::fields;
use crate::fields::Env;
use crate::fields::Field;
use crate::fields::Fields;
use crate::fields::Found;
use crate::fields::Pairs;
use crate::relation;
use crate::symbols;
use crate::symbols::Symbols;

verus! {

/// The values of the parameters of a statement: a statement has none, or they are
/// not known yet, or they are given.
#[derive(Debug)]
pub enum Params {
    Missing,
    Unknown,
    Given(Tuple),
}

/// The value of parameter `k`; the first one is number 1.
pub open spec fn param_value(values: Tuple, k: u64) -> Option<Datum>
    decreases values,
{
    match values {
        Tuple::Nil => None,
        Tuple::Cons(d, rest) => if k == 0 {
            None
        } else if k == 1 {
            Some(d)
        } else {
            param_value(*rest, (k - 1) as u64)
        },
    }
}

/// The value of parameter `k`.
pub fn value_of_param(values: &Tuple, k: u64) -> (r: Option<Datum>)
    ensures
        r == param_value(*values, k),
    decreases values,
{
    match values {
        Tuple::Nil => None,
        Tuple::Cons(d, rest) => if k == 0 {
            None
        } else if k == 1 {
            Some(*d)
        } else {
            value_of_param(rest, k - 1)
        },
    }
}

/// The named queries that a query can refer to, the last named first.
pub enum Named<'a> {
    Nil,
    Cons(usize, &'a Fields, &'a Vec<Tuple>, &'a Named<'a>),
}

pub enum NamedModel {
    Nil,
    Cons(usize, Fields, Seq<Tuple>, Box<NamedModel>),
}

pub open spec fn named_model(m: Named) -> NamedModel
    decreases m,
{
    match m {
        Named::Nil => NamedModel::Nil,
        Named::Cons(n, fs, rows, rest) => NamedModel::Cons(
            n,
            *fs,
            rows@,
            Box::new(named_model(*rest)),
        ),
    }
}

/// The columns of the query of a given name.
pub open spec fn named_fields(m: NamedModel, name: usize) -> Option<Fields>
    decreases m,
{
    match m {
        NamedModel::Nil => None,
        NamedModel::Cons(n, fs, _, rest) => if n == name {
            Some(fs)
        } else {
            named_fields(*rest, name)
        },
    }
}

/// The rows of the query of a given name.
pub open spec fn named_rows(m: NamedModel, name: usize) -> Option<Seq<Tuple>>
    decreases m,
{
    match m {
        NamedModel::Nil => None,
        NamedModel::Cons(n, _, rows, rest) => if n == name {
            Some(rows)
        } else {
            named_rows(*rest, name)
        },
    }
}

impl<'a> Named<'a> {
    fn fields(&self, name: usize) -> (r: Option<Fields>)
        ensures
            r == named_fields(named_model(*self), name),
        decreases self,
    {
        match self {
            Named::Nil => None,
            Named::Cons(n, fs, _, rest) => if *n == name {
                Some(fs.copy())
            } else {
                rest.fields(name)
            },
        }
    }

    /// The rows of the query of a given name.
    pub fn rows(&self, name: usize) -> (r: Option<Vec<Tuple>>)
        ensures
            match r {
                Some(v) => named_rows(named_model(*self), name) == Some(v@),
                None => named_rows(named_model(*self), name) is None,
            },
        decreases self,
    {
        match self {
            Named::Nil => None,
            Named::Cons(n, _, rows, rest) => if *n == name {
                Some(relation::copy_rows(rows))
            } else {
                rest.rows(name)
            },
        }
    }
}

/// What a statement is run against.
pub struct Cx<'a> {
    pub db: &'a Db,
    pub symbols: &'a Symbols,
    pub path: &'a Idents,
    pub user: usize,
    pub params: &'a Params,
    pub named: &'a Named<'a>,
}

pub struct CxModel {
    pub db: DbModel,
    pub symbols: Seq<Seq<char>>,
    pub path: Idents,
    pub user: usize,
    pub params: Params,
    pub named: NamedModel,
}

/// A context with one more named query.
pub open spec fn with_named(cx: CxModel, name: usize, fs: Fields, rows: Seq<Tuple>) -> CxModel {
    CxModel { named: NamedModel::Cons(name, fs, rows, Box::new(cx.named)), ..cx }
}

/// The columns of the named query that a name means.
pub open spec fn query_named(cx: CxModel, n: Name) -> Option<Fields> {
    match n.schema {
        Some(_) => None,
        None => named_fields(cx.named, n.name),
    }
}

/// The columns of the named query that a name means.
pub fn find_query_named(cx: &Cx, n: Name) -> (r: Option<Fields>)
    ensures
        r == query_named(cx@, n),
{
    match n.schema {
        Some(_) => None,
        None => cx.named.fields(n.name),
    }
}

impl<'a> View for Cx<'a> {
    type V = CxModel;

    open spec fn view(&self) -> CxModel {
        CxModel {
            db: self.db@,
            symbols: self.symbols@,
            path: *self.path,
            user: self.user,
            params: *self.params,
            named: named_model(*self.named),
        }
    }
}

/// The type of an expression; a null constant has none of its own.
#[derive(Clone, Copy, Debug)]
pub struct Ty {
    pub ty: Option<DataType>,
    pub nullable: bool,
}

/// The type of a constant.
pub open spec fn literal_type(d: Datum) -> Ty
{
    match d {
        Datum::Null => Ty { ty: None, nullable: true },
        Datum::Int(_) => Ty { ty: Some(DataType::Int), nullable: false },
        Datum::Big(_) => Ty { ty: Some(DataType::BigInt), nullable: false },
        Datum::Bool(_) => Ty { ty: Some(DataType::Boolean), nullable: false },
        Datum::Text(_) => Ty { ty: Some(DataType::Text), nullable: false },
    }
}

/// Whether an expression can be calculated with.
pub open spec fn numeric(t: Ty) -> bool
{
    match t.ty {
        None => true,
        Some(DataType::Int) => true,
        Some(DataType::BigInt) => true,
        _ => false,
    }
}

/// Whether an expression can be a condition.
pub open spec fn truth(t: Ty) -> bool
{
    match t.ty {
        None => true,
        Some(DataType::Boolean) => true,
        _ => false,
    }
}

/// The type that two expressions have in common, if there is one.
pub open spec fn common_type(a: Ty, b: Ty) -> Option<Ty>
{
    match (a.ty, b.ty) {
        (None, _) => Some(Ty { ty: b.ty, nullable: true }),
        (_, None) => Some(Ty { ty: a.ty, nullable: true }),
        (Some(x), Some(y)) => if x == y {
            Some(Ty { ty: a.ty, nullable: a.nullable || b.nullable })
        } else if numeric(a) && numeric(b) {
            Some(Ty { ty: Some(DataType::BigInt), nullable: a.nullable || b.nullable })
        } else {
            None
        },
    }
}

/// The type of a comparison.
pub open spec fn compared_type(a: Ty, b: Ty) -> Result<Ty, Fault>
{
    match common_type(a, b) {
        Some(_) => Ok(Ty { ty: Some(DataType::Boolean), nullable: a.nullable || b.nullable }),
        None => Err(Fault::OperatorMissing),
    }
}

/// The type of a calculation.
pub open spec fn calculated_type(a: Ty, b: Ty) -> Result<Ty, Fault>
{
    if !numeric(a) || !numeric(b) {
        Err(Fault::OperatorMissing)
    } else {
        match common_type(a, b) {
            Some(t) => match t.ty {
                None => Ok(Ty { ty: Some(DataType::Int), nullable: true }),
                Some(_) => Ok(t),
            },
            None => Err(Fault::OperatorMissing),
        }
    }
}

/// Whether an expression calls an aggregate function, not counting its
/// subqueries.
pub open spec fn has_aggregate(e: Expr) -> bool
    decreases e,
{
    match e {
        Expr::CountRows => true,
        Expr::Agg(_, _, _) => true,
        Expr::Not(x) => has_aggregate(*x),
        Expr::Negate(x) => has_aggregate(*x),
        Expr::And(x, y) => has_aggregate(*x) || has_aggregate(*y),
        Expr::Or(x, y) => has_aggregate(*x) || has_aggregate(*y),
        Expr::Compare(_, x, y) => has_aggregate(*x) || has_aggregate(*y),
        Expr::Arith(_, x, y) => has_aggregate(*x) || has_aggregate(*y),
        Expr::IsNull(x, _) => has_aggregate(*x),
        Expr::InList(x, list, _) => has_aggregate(*x) || any_aggregate(*list),
        Expr::InQuery(x, _, _) => has_aggregate(*x),
        Expr::Between(x, y, z, _) => has_aggregate(*x) || has_aggregate(*y) || has_aggregate(*z),
        Expr::Case(whens, otherwise) => whens_aggregate(*whens) || has_aggregate(*otherwise),
        Expr::Coalesce(list) => any_aggregate(*list),
        Expr::Cast(x, _) => has_aggregate(*x),
        Expr::Like(x, y, _) => has_aggregate(*x) || has_aggregate(*y),
        Expr::NullIf(x, y) => has_aggregate(*x) || has_aggregate(*y),
        Expr::Switch(x, whens, otherwise) => has_aggregate(*x) || whens_aggregate(*whens) || has_aggregate(*otherwise),
        Expr::Call(_, _, x, y, z) => has_aggregate(*x) || has_aggregate(*y) || has_aggregate(*z),
        _ => false,
    }
}

/// Whether one of several expressions calls an aggregate function.
pub open spec fn any_aggregate(es: Exprs) -> bool
    decreases es,
{
    match es {
        Exprs::Nil => false,
        Exprs::Cons(e, rest) => has_aggregate(*e) || any_aggregate(*rest),
    }
}

/// Whether a branch of a case expression calls an aggregate function.
pub open spec fn whens_aggregate(ws: Whens) -> bool
    decreases ws,
{
    match ws {
        Whens::Nil => false,
        Whens::Cons(c, x, rest) => has_aggregate(*c) || has_aggregate(*x) || whens_aggregate(*rest),
    }
}

/// Whether a select list calls an aggregate function.
pub open spec fn items_aggregate(items: Items) -> bool
    decreases items,
{
    match items {
        Items::Nil => false,
        Items::Cons(Item::Expr(e, _), rest) => has_aggregate(*e) || items_aggregate(*rest),
        Items::Cons(_, rest) => items_aggregate(*rest),
    }
}

/// Whether the rows of a query block are grouped.
pub open spec fn is_grouped(s: Select) -> bool
{
    s.has_having || !(s.group is Nil) || items_aggregate(s.items)
}

/// Whether an expression calls a window function, not counting its
/// subqueries.
pub open spec fn has_window(e: Expr) -> bool
    decreases e,
{
    match e {
        Expr::Window(_, _, _) => true,
        Expr::Agg(_, _, x) => has_window(*x),
        Expr::Not(x) => has_window(*x),
        Expr::Negate(x) => has_window(*x),
        Expr::And(x, y) => has_window(*x) || has_window(*y),
        Expr::Or(x, y) => has_window(*x) || has_window(*y),
        Expr::Compare(_, x, y) => has_window(*x) || has_window(*y),
        Expr::Arith(_, x, y) => has_window(*x) || has_window(*y),
        Expr::IsNull(x, _) => has_window(*x),
        Expr::InList(x, list, _) => has_window(*x) || any_window(*list),
        Expr::InQuery(x, _, _) => has_window(*x),
        Expr::Between(x, y, z, _) => has_window(*x) || has_window(*y) || has_window(*z),
        Expr::Case(whens, otherwise) => whens_window(*whens) || has_window(*otherwise),
        Expr::Coalesce(list) => any_window(*list),
        Expr::Cast(x, _) => has_window(*x),
        Expr::Like(x, y, _) => has_window(*x) || has_window(*y),
        Expr::NullIf(x, y) => has_window(*x) || has_window(*y),
        Expr::Switch(x, whens, otherwise) => has_window(*x) || whens_window(*whens) || has_window(*otherwise),
        Expr::Call(_, _, x, y, z) => has_window(*x) || has_window(*y) || has_window(*z),
        _ => false,
    }
}

/// Whether one of several expressions calls a window function.
pub open spec fn any_window(es: Exprs) -> bool
    decreases es,
{
    match es {
        Exprs::Nil => false,
        Exprs::Cons(e, rest) => has_window(*e) || any_window(*rest),
    }
}

/// Whether a branch of a case expression calls a window function.
pub open spec fn whens_window(ws: Whens) -> bool
    decreases ws,
{
    match ws {
        Whens::Nil => false,
        Whens::Cons(c, x, rest) => has_window(*c) || has_window(*x) || whens_window(*rest),
    }
}

/// Whether a select list calls a window function.
pub open spec fn items_window(items: Items) -> bool
    decreases items,
{
    match items {
        Items::Nil => false,
        Items::Cons(Item::Expr(e, _), rest) => has_window(*e) || items_window(*rest),
        Items::Cons(_, rest) => items_window(*rest),
    }
}

/// Whether a sort key calls a window function.
pub open spec fn orders_window(os: Orders) -> bool
    decreases os,
{
    match os {
        Orders::Nil => false,
        Orders::Cons(e, _, _, rest) => has_window(*e) || orders_window(*rest),
    }
}

/// Whether a query block calls a window function.
pub open spec fn windowed(s: Select) -> bool
{
    items_window(s.items) || orders_window(s.orders)
}

/// Whether a query block calls a window function where it has no window: on groups,
/// or in a condition or grouping.
pub open spec fn windows_misplaced(s: Select) -> bool
{
    has_window(s.filter) || any_window(s.group) || has_window(s.having) || (is_grouped(s) && windowed(s))
}

/// Whether an expression may depend on the rows that it is a value of.
pub open spec fn reads_rows(e: Expr) -> bool
    decreases e,
{
    match e {
        Expr::Lit(_) => false,
        Expr::Param(_) => false,
        Expr::Default => false,
        Expr::Not(x) => reads_rows(*x),
        Expr::Negate(x) => reads_rows(*x),
        Expr::And(x, y) => reads_rows(*x) || reads_rows(*y),
        Expr::Or(x, y) => reads_rows(*x) || reads_rows(*y),
        Expr::Compare(_, x, y) => reads_rows(*x) || reads_rows(*y),
        Expr::Arith(_, x, y) => reads_rows(*x) || reads_rows(*y),
        Expr::IsNull(x, _) => reads_rows(*x),
        Expr::InList(x, list, _) => reads_rows(*x) || any_reads_rows(*list),
        Expr::Between(x, y, z, _) => reads_rows(*x) || reads_rows(*y) || reads_rows(*z),
        Expr::Case(whens, otherwise) => whens_read_rows(*whens) || reads_rows(*otherwise),
        Expr::Coalesce(list) => any_reads_rows(*list),
        Expr::Cast(x, _) => reads_rows(*x),
        Expr::Like(x, y, _) => reads_rows(*x) || reads_rows(*y),
        Expr::NullIf(x, y) => reads_rows(*x) || reads_rows(*y),
        Expr::Switch(x, whens, otherwise) => reads_rows(*x) || whens_read_rows(*whens) || reads_rows(*otherwise),
        Expr::Call(_, _, x, y, z) => reads_rows(*x) || reads_rows(*y) || reads_rows(*z),
        _ => true,
    }
}

/// Whether one of several expressions may depend on rows.
pub open spec fn any_reads_rows(es: Exprs) -> bool
    decreases es,
{
    match es {
        Exprs::Nil => false,
        Exprs::Cons(e, rest) => reads_rows(*e) || any_reads_rows(*rest),
    }
}

/// Whether a branch of a case expression may depend on rows.
pub open spec fn whens_read_rows(ws: Whens) -> bool
    decreases ws,
{
    match ws {
        Whens::Nil => false,
        Whens::Cons(c, x, rest) => reads_rows(*c) || reads_rows(*x) || whens_read_rows(*rest),
    }
}

/// Whether a select list may depend on rows.
pub open spec fn items_read_rows(items: Items) -> bool
    decreases items,
{
    match items {
        Items::Nil => false,
        Items::Cons(Item::Expr(e, _), rest) => reads_rows(*e) || items_read_rows(*rest),
        Items::Cons(_, _) => true,
    }
}

/// Whether sort keys may depend on rows.
pub open spec fn orders_read_rows(os: Orders) -> bool
    decreases os,
{
    match os {
        Orders::Nil => false,
        Orders::Cons(e, _, _, rest) => reads_rows(*e) || orders_read_rows(*rest),
    }
}

/// Whether what tells duplicates may depend on rows.
pub open spec fn distinct_reads_rows(d: Distinct) -> bool
{
    match d {
        Distinct::On(es) => any_reads_rows(*es),
        _ => false,
    }
}

/// Whether the result of a query block depends on its rows. A condition on all rows
/// as one group that names none of them, with a select list that does not either,
/// leaves one result whatever the rows are: they are not even gone through.
pub open spec fn needs_rows(s: Select) -> bool
{
    !s.has_having || !(s.group is Nil) || items_read_rows(s.items) || reads_rows(s.having) || orders_read_rows(s.orders) || distinct_reads_rows(s.distinct)
}

/// Whether two expressions over the same columns are the same.
pub open spec fn alike(fs: Fields, a: Expr, b: Expr) -> bool
    decreases a,
{
    match (a, b) {
        (Expr::Col(p, m), Expr::Col(q, n)) => match fields::find(fs, p, m) {
            Found::One(i) => fields::find(fs, q, n) == Found::One(i),
            _ => false,
        },
        (Expr::Lit(x), Expr::Lit(y)) => x == y,
        (Expr::Not(x), Expr::Not(y)) => alike(fs, *x, *y),
        (Expr::Negate(x), Expr::Negate(y)) => alike(fs, *x, *y),
        (Expr::And(x, u), Expr::And(y, v)) => alike(fs, *x, *y) && alike(fs, *u, *v),
        (Expr::Or(x, u), Expr::Or(y, v)) => alike(fs, *x, *y) && alike(fs, *u, *v),
        (
            Expr::Compare(c, x, u),
            Expr::Compare(d, y, v),
        ) => c == d && alike(fs, *x, *y) && alike(fs, *u, *v),
        (
            Expr::Arith(c, x, u),
            Expr::Arith(d, y, v),
        ) => c == d && alike(fs, *x, *y) && alike(fs, *u, *v),
        (Expr::IsNull(x, c), Expr::IsNull(y, d)) => c == d && alike(fs, *x, *y),
        (Expr::Cast(x, c), Expr::Cast(y, d)) => c == d && alike(fs, *x, *y),
        (
            Expr::Call(f, _, x, u, a),
            Expr::Call(g, _, y, v, b),
        ) => f == g && alike(fs, *x, *y) && alike(fs, *u, *v) && alike(fs, *a, *b),
        _ => false,
    }
}

/// Whether an expression is one of the grouping expressions.
pub open spec fn grouping(fs: Fields, group: Exprs, e: Expr) -> bool
    decreases group,
{
    match group {
        Exprs::Nil => false,
        Exprs::Cons(g, rest) => alike(fs, *g, e) || grouping(fs, *rest, e),
    }
}

/// Whether an expression has one value for each group: every column that it
/// refers to, outside of aggregate functions, is grouped by.
pub open spec fn grouped_ok(fs: Fields, group: Exprs, e: Expr) -> Result<(), Fault>
    decreases e,
{
    if grouping(fs, group, e) {
        Ok(())
    } else {
        match e {
            Expr::Col(q, n) => match fields::find(fs, q, n) {
                Found::One(i) => match fields::field_at(fs, i as nat) {
                    Some(f) => Err(Fault::UngroupedColumn { table: f.qualifier, name: f.name }),
                    None => Ok(()),
                },
                _ => Ok(()),
            },
            Expr::Not(x) => grouped_ok(fs, group, *x),
            Expr::Negate(x) => grouped_ok(fs, group, *x),
            Expr::And(x, y) => {
                match grouped_ok(fs, group, *x) {
                    Err(f) => Err(f),
                    Ok(_) => {
                        grouped_ok(fs, group, *y)
                    },
                }
            },
            Expr::Or(x, y) => {
                match grouped_ok(fs, group, *x) {
                    Err(f) => Err(f),
                    Ok(_) => {
                        grouped_ok(fs, group, *y)
                    },
                }
            },
            Expr::Compare(_, x, y) => {
                match grouped_ok(fs, group, *x) {
                    Err(f) => Err(f),
                    Ok(_) => {
                        grouped_ok(fs, group, *y)
                    },
                }
            },
            Expr::Arith(_, x, y) => {
                match grouped_ok(fs, group, *x) {
                    Err(f) => Err(f),
                    Ok(_) => {
                        grouped_ok(fs, group, *y)
                    },
                }
            },
            Expr::IsNull(x, _) => grouped_ok(fs, group, *x),
            Expr::InList(x, list, _) => {
                match grouped_ok(fs, group, *x) {
                    Err(f) => Err(f),
                    Ok(_) => {
                        all_grouped_ok(fs, group, *list)
                    },
                }
            },
            Expr::InQuery(x, _, _) => grouped_ok(fs, group, *x),
            Expr::Between(x, y, z, _) => {
                match grouped_ok(fs, group, *x) {
                    Err(f) => Err(f),
                    Ok(_) => {
                        match grouped_ok(fs, group, *y) {
                            Err(f) => Err(f),
                            Ok(_) => {
                                grouped_ok(fs, group, *z)
                            },
                        }
                    },
                }
            },
            Expr::Case(whens, otherwise) => {
                match whens_grouped_ok(fs, group, *whens) {
                    Err(f) => Err(f),
                    Ok(_) => {
                        grouped_ok(fs, group, *otherwise)
                    },
                }
            },
            Expr::Coalesce(list) => all_grouped_ok(fs, group, *list),
            Expr::Cast(x, _) => grouped_ok(fs, group, *x),
            Expr::Like(x, y, _) => {
                match grouped_ok(fs, group, *x) {
                    Err(f) => Err(f),
                    Ok(_) => {
                        grouped_ok(fs, group, *y)
                    },
                }
            },
            Expr::NullIf(x, y) => {
                match grouped_ok(fs, group, *x) {
                    Err(f) => Err(f),
                    Ok(_) => {
                        grouped_ok(fs, group, *y)
                    },
                }
            },
            Expr::Switch(x, whens, otherwise) => {
                match grouped_ok(fs, group, *x) {
                    Err(f) => Err(f),
                    Ok(_) => {
                        match whens_grouped_ok(fs, group, *whens) {
                            Err(f) => Err(f),
                            Ok(_) => {
                                grouped_ok(fs, group, *otherwise)
                            },
                        }
                    },
                }
            },
            Expr::Call(_, _, x, y, z) => {
                match grouped_ok(fs, group, *x) {
                    Err(f) => Err(f),
                    Ok(_) => {
                        match grouped_ok(fs, group, *y) {
                            Err(f) => Err(f),
                            Ok(_) => {
                                grouped_ok(fs, group, *z)
                            },
                        }
                    },
                }
            },
            _ => Ok(()),
        }
    }
}

/// `grouped_ok` for several expressions.
pub open spec fn all_grouped_ok(fs: Fields, group: Exprs, es: Exprs) -> Result<(), Fault>
    decreases es,
{
    match es {
        Exprs::Nil => Ok(()),
        Exprs::Cons(e, rest) => {
            match grouped_ok(fs, group, *e) {
                Err(f) => Err(f),
                Ok(_) => {
                    all_grouped_ok(fs, group, *rest)
                },
            }
        },
    }
}

/// `grouped_ok` for the branches of a case expression.
pub open spec fn whens_grouped_ok(fs: Fields, group: Exprs, ws: Whens) -> Result<(), Fault>
    decreases ws,
{
    match ws {
        Whens::Nil => Ok(()),
        Whens::Cons(c, x, rest) => {
            match grouped_ok(fs, group, *c) {
                Err(f) => Err(f),
                Ok(_) => {
                    match grouped_ok(fs, group, *x) {
                        Err(f) => Err(f),
                        Ok(_) => {
                            whens_grouped_ok(fs, group, *rest)
                        },
                    }
                },
            }
        },
    }
}

/// `grouped_ok` for a select list; a star stands for every visible column.
pub open spec fn items_grouped_ok(fs: Fields, group: Exprs, items: Items) -> Result<(), Fault>
    decreases items,
{
    match items {
        Items::Nil => Ok(()),
        Items::Cons(Item::Expr(e, _), rest) => {
            match grouped_ok(fs, group, *e) {
                Err(f) => Err(f),
                Ok(_) => {
                    items_grouped_ok(fs, group, *rest)
                },
            }
        },
        Items::Cons(_, rest) => {
            match fields_grouped_ok(fs, group, fs) {
                Err(f) => Err(f),
                Ok(_) => {
                    items_grouped_ok(fs, group, *rest)
                },
            }
        },
    }
}

/// Whether all columns of a relation are grouped by.
pub open spec fn fields_grouped_ok(fs: Fields, group: Exprs, rest: Fields) -> Result<(), Fault>
    decreases rest,
{
    match rest {
        Fields::Nil => Ok(()),
        Fields::Cons(f, more) => if f.hidden || grouping(
            fs,
            group,
            Expr::Col(f.qualifier, f.name),
        ) {
            fields_grouped_ok(fs, group, *more)
        } else {
            Err(Fault::UngroupedColumn { table: f.qualifier, name: f.name })
        },
    }
}

/// The name of a column that is given no name.
pub open spec fn item_name(e: Expr) -> usize
    decreases e,
{
    match e {
        Expr::Col(_, n) => n,
        Expr::CountRows => symbols::COUNT,
        Expr::Agg(AggFn::Count, _, _) => symbols::COUNT,
        Expr::Agg(AggFn::Sum, _, _) => symbols::SUM,
        Expr::Agg(AggFn::Min, _, _) => symbols::MIN,
        Expr::Agg(AggFn::Max, _, _) => symbols::MAX,
        Expr::Exists(_) => symbols::EXISTS,
        Expr::Case(_, _) => symbols::CASE,
        Expr::Switch(_, _, _) => symbols::CASE,
        Expr::Call(_, n, _, _, _) => n,
        Expr::Window(_, n, _) => n,
        Expr::Next(_, n) => n,
        Expr::Coalesce(_) => symbols::COALESCE,
        Expr::Cast(x, _) => item_name(*x),
        _ => symbols::ANONYMOUS,
    }
}

/// The places of the columns that a join merges by their names.
pub open spec fn using_pairs(l: Fields, r: Fields, names: Idents) -> Result<Pairs, Fault>
    decreases names,
{
    match names {
        Idents::Nil => Ok(Pairs::Nil),
        Idents::Cons(n, rest) => match (fields::find(l, None, n), fields::find(r, None, n)) {
            (Found::One(i), Found::One(j)) => {
                match using_pairs(l, r, *rest) {
                    Err(f) => Err(f),
                    Ok(more) => {
                        Ok(Pairs::Cons(i, j, Box::new(more)))
                    },
                }
            },
            (Found::Many, _) => Err(Fault::AmbiguousColumn { name: n }),
            (_, Found::Many) => Err(Fault::AmbiguousColumn { name: n }),
            _ => Err(Fault::UndefinedColumn { table: None, name: n }),
        },
    }
}

/// The merged columns of a join.
pub open spec fn merged_fields(
    l: Fields,
    names: Idents,
    alias: Option<usize>,
    nullable: bool,
) -> Fields
    decreases names,
{
    match names {
        Idents::Nil => Fields::Nil,
        Idents::Cons(n, rest) => {
            let ty: Option<DataType> = match fields::find(l, None, n) {
                Found::One(i) => match fields::field_at(l, i as nat) {
                    Some(f) => f.ty,
                    None => None,
                },
                _ => None,
            };
            let maybe: bool = match fields::find(l, None, n) {
                Found::One(i) => match fields::field_at(l, i as nat) {
                    Some(f) => f.nullable || nullable,
                    None => true,
                },
                _ => true,
            };
            Fields::Cons(
                Field { qualifier: alias, name: n, ty, nullable: maybe, hidden: false },
                Box::new(merged_fields(l, *rest, alias, nullable)),
            )
        },
    }
}

/// The names of the columns that a join merges.
pub open spec fn join_names(l: Fields, r: Fields, on: JoinOn) -> Idents
{
    match on {
        JoinOn::Using(names, _) => *names,
        JoinOn::Natural => fields::common_names(l, r),
        _ => Idents::Nil,
    }
}

/// The name under which the merged columns of a join can be referred to.
pub open spec fn join_alias(on: JoinOn) -> Option<usize>
{
    match on {
        JoinOn::Using(_, alias) => alias,
        _ => None,
    }
}

/// The places of the columns that a join merges.
pub open spec fn join_pairs(l: Fields, r: Fields, on: JoinOn) -> Result<Pairs, Fault>
{
    let names: Idents = join_names(l, r, on);
    using_pairs(l, r, names)
}

/// The columns of a join: the merged ones, those of the left and those of the
/// right relation. The merged ones are hidden under their own relations.
pub open spec fn join_fields(kind: JoinKind, l: Fields, r: Fields, on: JoinOn) -> Fields
{
    let names: Idents = join_names(l, r, on);
    let left: Fields = fields::made_nullable(l, kind == JoinKind::Right || kind == JoinKind::Full);
    let right: Fields = fields::made_nullable(r, kind == JoinKind::Left || kind == JoinKind::Full);
    let first: Fields = merged_fields(
        l,
        names,
        join_alias(on),
        kind == JoinKind::Right || kind == JoinKind::Full,
    );
    let both: Fields = fields::fields_append(
        fields::with_hidden(left, names),
        fields::with_hidden(right, names),
    );
    fields::fields_append(first, both)
}

/// The columns of a set operation: the names of the left query, and the types
/// that both have in common.
pub open spec fn combined_fields(a: Fields, b: Fields) -> Result<Fields, Fault>
    decreases a,
{
    match (a, b) {
        (Fields::Nil, Fields::Nil) => Ok(Fields::Nil),
        (
            Fields::Cons(f, more),
            Fields::Cons(g, rest),
        ) => match common_type(stored_type(f), stored_type(g)) {
            None => Err(Fault::TypesDiffer),
            Some(t) => {
                match combined_fields(*more, *rest) {
                    Err(f) => Err(f),
                    Ok(others) => {
                        Ok(
                            Fields::Cons(
                                Field {
                                    qualifier: None,
                                    name: f.name,
                                    ty: t.ty,
                                    nullable: t.nullable,
                                    hidden: false,
                                },
                                Box::new(others),
                            ),
                        )
                    },
                }
            },
        },
        _ => Err(Fault::SetOperationWidth),
    }
}

/// The type of an expression over the columns in scope. Aggregate functions are
/// accepted where `agg` says so.
pub open spec fn expr_type(cx: CxModel, env: Env, agg: bool, e: Expr) -> Result<Ty, Fault>
    decreases e, 0int,
{
    match e {
        Expr::Lit(d) => Ok(literal_type(d)),
        Expr::Col(q, n) => match fields::env_field(env, q, n) {
            None => Err(Fault::UndefinedColumn { table: q, name: n }),
            Some(Err(_)) => Err(Fault::AmbiguousColumn { name: n }),
            Some(Ok(f)) => Ok(stored_type(f)),
        },
        Expr::Not(x) => condition_type(cx, env, agg, *x),
        Expr::Negate(x) => {
            match expr_type(cx, env, agg, *x) {
                Err(f) => Err(f),
                Ok(t) => {
                    calculated_type(t, t)
                },
            }
        },
        Expr::And(x, y) => {
            match condition_type(cx, env, agg, *x) {
                Err(f) => Err(f),
                Ok(t) => {
                    match condition_type(cx, env, agg, *y) {
                        Err(f) => Err(f),
                        Ok(u) => {
                            Ok(
                                Ty {
                                    ty: Some(DataType::Boolean),
                                    nullable: t.nullable || u.nullable,
                                },
                            )
                        },
                    }
                },
            }
        },
        Expr::Or(x, y) => {
            match condition_type(cx, env, agg, *x) {
                Err(f) => Err(f),
                Ok(t) => {
                    match condition_type(cx, env, agg, *y) {
                        Err(f) => Err(f),
                        Ok(u) => {
                            Ok(
                                Ty {
                                    ty: Some(DataType::Boolean),
                                    nullable: t.nullable || u.nullable,
                                },
                            )
                        },
                    }
                },
            }
        },
        Expr::Compare(_, x, y) => {
            match expr_type(cx, env, agg, *x) {
                Err(f) => Err(f),
                Ok(t) => {
                    match expr_type(cx, env, agg, *y) {
                        Err(f) => Err(f),
                        Ok(u) => {
                            compared_type(t, u)
                        },
                    }
                },
            }
        },
        Expr::Arith(_, x, y) => {
            match expr_type(cx, env, agg, *x) {
                Err(f) => Err(f),
                Ok(t) => {
                    match expr_type(cx, env, agg, *y) {
                        Err(f) => Err(f),
                        Ok(u) => {
                            calculated_type(t, u)
                        },
                    }
                },
            }
        },
        Expr::IsNull(x, _) => {
            match expr_type(cx, env, agg, *x) {
                Err(f) => Err(f),
                Ok(_t) => {
                    Ok(Ty { ty: Some(DataType::Boolean), nullable: false })
                },
            }
        },
        Expr::InList(x, list, _) => {
            match expr_type(cx, env, agg, *x) {
                Err(f) => Err(f),
                Ok(t) => {
                    list_compared(cx, env, agg, t, *list)
                },
            }
        },
        Expr::InQuery(x, q, _) => {
            match expr_type(cx, env, agg, *x) {
                Err(f) => Err(f),
                Ok(t) => {
                    match single_column(cx, env, *q) {
                        Err(f) => Err(f),
                        Ok(u) => {
                            compared_type(t, Ty { ty: u.ty, nullable: true })
                        },
                    }
                },
            }
        },
        Expr::Between(x, y, z, _) => {
            match expr_type(cx, env, agg, *x) {
                Err(f) => Err(f),
                Ok(t) => {
                    match expr_type(cx, env, agg, *y) {
                        Err(f) => Err(f),
                        Ok(u) => {
                            match expr_type(cx, env, agg, *z) {
                                Err(f) => Err(f),
                                Ok(v) => {
                                    match compared_type(t, u) {
                                        Err(f) => Err(f),
                                        Ok(a) => {
                                            match compared_type(t, v) {
                                                Err(f) => Err(f),
                                                Ok(b) => {
                                                    Ok(
                                                        Ty {
                                                            ty: Some(DataType::Boolean),
                                                            nullable: a.nullable || b.nullable,
                                                        },
                                                    )
                                                },
                                            }
                                        },
                                    }
                                },
                            }
                        },
                    }
                },
            }
        },
        Expr::Exists(q) => {
            match query_fields(cx, env, *q) {
                Err(f) => Err(f),
                Ok(_fs) => {
                    Ok(Ty { ty: Some(DataType::Boolean), nullable: false })
                },
            }
        },
        Expr::Scalar(q) => single_column(cx, env, *q),
        Expr::Case(whens, otherwise) => {
            match expr_type(cx, env, agg, *otherwise) {
                Err(f) => Err(f),
                Ok(t) => {
                    whens_type(cx, env, agg, t, *whens)
                },
            }
        },
        Expr::Coalesce(list) => coalesced_type(
            cx,
            env,
            agg,
            Ty { ty: None, nullable: true },
            *list,
        ),
        Expr::CountRows => if agg {
            Ok(Ty { ty: Some(DataType::BigInt), nullable: false })
        } else {
            Err(Fault::MisplacedAggregate)
        },
        Expr::Agg(f, _, x) => if agg {
            match expr_type(cx, env, false, *x) {
                Err(f) => Err(f),
                Ok(t) => {
                    match f {
                        AggFn::Count => Ok(Ty { ty: Some(DataType::BigInt), nullable: false }),
                        AggFn::Sum => if numeric(t) {
                            Ok(Ty { ty: t.ty, nullable: true })
                        } else {
                            Err(Fault::OperatorMissing)
                        },
                        _ => Ok(Ty { ty: t.ty, nullable: true }),
                    }
                },
            }
        } else {
            Err(Fault::MisplacedAggregate)
        },
        Expr::Next(n, _) => match catalog::sequence_resolved(cx.db.sequences, cx.path, n) {
            None => Err(Fault::UndefinedSequence { name: n.name }),
            Some(_) => Ok(Ty { ty: Some(DataType::BigInt), nullable: false }),
        },
        Expr::Window(f, _, over) => if agg {
            over_type(cx, env, f, *over)
        } else {
            Err(Fault::MisplacedWindow)
        },
        Expr::Cast(x, ty) => {
            match expr_type(cx, env, agg, *x) {
                Err(f) => Err(f),
                Ok(t) => {
                    cast_type(t, ty)
                },
            }
        },
        Expr::Default => Err(Fault::MisplacedDefault),
        Expr::Param(k) => param_type(cx, k),
        Expr::Like(x, y, _) => {
            match expr_type(cx, env, agg, *x) {
                Err(f) => Err(f),
                Ok(t) => {
                    match expr_type(cx, env, agg, *y) {
                        Err(f) => Err(f),
                        Ok(u) => {
                            if textual(t) && textual(u) {
                                Ok(
                                    Ty {
                                        ty: Some(DataType::Boolean),
                                        nullable: t.nullable || u.nullable,
                                    },
                                )
                            } else {
                                Err(Fault::OperatorMissing)
                            }
                        },
                    }
                },
            }
        },
        Expr::Switch(x, whens, otherwise) => {
            match expr_type(cx, env, agg, *x) {
                Err(f) => Err(f),
                Ok(v) => {
                    match expr_type(cx, env, agg, *otherwise) {
                        Err(f) => Err(f),
                        Ok(t) => {
                            switch_type(cx, env, agg, v, t, *whens)
                        },
                    }
                },
            }
        },
        Expr::Call(f, _, x, y, z) => {
            match expr_type(cx, env, agg, *x) {
                Err(f) => Err(f),
                Ok(t) => {
                    match expr_type(cx, env, agg, *y) {
                        Err(f) => Err(f),
                        Ok(u) => {
                            match expr_type(cx, env, agg, *z) {
                                Err(f) => Err(f),
                                Ok(v) => {
                                    call_type(f, t, u, v)
                                },
                            }
                        },
                    }
                },
            }
        },
        Expr::NullIf(x, y) => {
            match expr_type(cx, env, agg, *x) {
                Err(f) => Err(f),
                Ok(t) => {
                    match expr_type(cx, env, agg, *y) {
                        Err(f) => Err(f),
                        Ok(u) => {
                            match compared_type(t, u) {
                                Err(f) => Err(f),
                                Ok(_c) => {
                                    Ok(Ty { ty: t.ty, nullable: true })
                                },
                            }
                        },
                    }
                },
            }
        },
    }
}

/// Whether a type is that of texts, or not settled yet.
pub open spec fn textual(t: Ty) -> bool
{
    match t.ty {
        None => true,
        Some(DataType::Text) => true,
        _ => false,
    }
}

/// The type of a parameter: that of its value, or none if it has no value yet.
pub open spec fn param_type(cx: CxModel, k: u64) -> Result<Ty, Fault>
{
    match cx.params {
        Params::Missing => Err(Fault::Parameter),
        Params::Unknown => Ok(Ty { ty: None, nullable: true }),
        Params::Given(values) => match param_value(values, k) {
            None => Err(Fault::Parameter),
            Some(d) => Ok(literal_type(d)),
        },
    }
}

/// The type of a column.
pub open spec fn stored_type(f: Field) -> Ty
{
    Ty { ty: f.ty, nullable: f.nullable }
}

/// The type of a cast. Numbers can be cast to numbers, texts to numbers, and
/// everything to a text and to its own type.
pub open spec fn cast_type(t: Ty, ty: DataType) -> Result<Ty, Fault>
{
    match t.ty {
        None => Ok(Ty { ty: Some(ty), nullable: true }),
        Some(from) => if from == ty {
            Ok(Ty { ty: Some(ty), nullable: t.nullable })
        } else if ty == DataType::Text {
            Ok(Ty { ty: Some(ty), nullable: t.nullable })
        } else if (from == DataType::Text || numeric(t))
            && (ty == DataType::Int || ty == DataType::BigInt)
        {
            Ok(Ty { ty: Some(ty), nullable: t.nullable })
        } else {
            Err(Fault::OperatorMissing)
        },
    }
}

/// The type of a window function.
pub open spec fn over_type(cx: CxModel, env: Env, f: WindowFn, over: Over) -> Result<Ty, Fault>
    decreases over, 0int,
{
    match expr_type(cx, env, false, over.arg) {
        Err(f) => Err(f),
        Ok(t) => {
            match all_types(cx, env, over.partition) {
                Err(f) => Err(f),
                Ok(_p) => {
                    match window_orders_ok(cx, env, over.orders) {
                        Err(f) => Err(f),
                        Ok(_o) => {
                            match f {
                                WindowFn::Lag => Ok(Ty { ty: t.ty, nullable: true }),
                                WindowFn::Lead => Ok(Ty { ty: t.ty, nullable: true }),
                                WindowFn::Agg(AggFn::Sum) => if numeric(t) {
                                    Ok(Ty { ty: t.ty, nullable: true })
                                } else {
                                    Err(Fault::OperatorMissing)
                                },
                                WindowFn::Agg(AggFn::Min) => Ok(Ty { ty: t.ty, nullable: true }),
                                WindowFn::Agg(AggFn::Max) => Ok(Ty { ty: t.ty, nullable: true }),
                                _ => Ok(Ty { ty: Some(DataType::BigInt), nullable: false }),
                            }
                        },
                    }
                },
            }
        },
    }
}

/// Whether the sort keys of a window can be computed.
pub open spec fn window_orders_ok(cx: CxModel, env: Env, os: Orders) -> Result<(), Fault>
    decreases os, 0int,
{
    match os {
        Orders::Nil => Ok(()),
        Orders::Cons(e, _, _, rest) => {
            match expr_type(cx, env, false, *e) {
                Err(f) => Err(f),
                Ok(_t) => {
                    window_orders_ok(cx, env, *rest)
                },
            }
        },
    }
}

/// The type of a condition, which is a truth value.
pub open spec fn condition_type(cx: CxModel, env: Env, agg: bool, e: Expr) -> Result<Ty, Fault>
    decreases e, 1int,
{
    match expr_type(cx, env, agg, e) {
        Err(f) => Err(f),
        Ok(t) => {
            if truth(t) {
                Ok(Ty { ty: Some(DataType::Boolean), nullable: t.nullable })
            } else {
                Err(Fault::NotBoolean)
            }
        },
    }
}

/// The type of a comparison with each of several expressions.
pub open spec fn list_compared(
    cx: CxModel,
    env: Env,
    agg: bool,
    t: Ty,
    es: Exprs,
) -> Result<Ty, Fault>
    decreases es, 0int,
{
    match es {
        Exprs::Nil => Ok(Ty { ty: Some(DataType::Boolean), nullable: t.nullable }),
        Exprs::Cons(e, rest) => {
            match expr_type(cx, env, agg, *e) {
                Err(f) => Err(f),
                Ok(u) => {
                    match compared_type(t, u) {
                        Err(f) => Err(f),
                        Ok(c) => {
                            match list_compared(cx, env, agg, t, *rest) {
                                Err(f) => Err(f),
                                Ok(more) => {
                                    Ok(
                                        Ty {
                                            ty: Some(DataType::Boolean),
                                            nullable: c.nullable || more.nullable,
                                        },
                                    )
                                },
                            }
                        },
                    }
                },
            }
        },
    }
}

/// The type of a case expression whose last alternative has the type `t`.
pub open spec fn whens_type(cx: CxModel, env: Env, agg: bool, t: Ty, ws: Whens) -> Result<Ty, Fault>
    decreases ws, 0int,
{
    match ws {
        Whens::Nil => Ok(t),
        Whens::Cons(c, x, rest) => {
            match condition_type(cx, env, agg, *c) {
                Err(f) => Err(f),
                Ok(_c) => {
                    match expr_type(cx, env, agg, *x) {
                        Err(f) => Err(f),
                        Ok(u) => {
                            match common_type(t, u) {
                                None => Err(Fault::TypesDiffer),
                                Some(v) => whens_type(cx, env, agg, v, *rest),
                            }
                        },
                    }
                },
            }
        },
    }
}

/// The type of a case expression that compares a value of the type `x` and whose
/// last alternative has the type `t`.
pub open spec fn switch_type(
    cx: CxModel,
    env: Env,
    agg: bool,
    x: Ty,
    t: Ty,
    ws: Whens,
) -> Result<Ty, Fault>
    decreases ws, 0int,
{
    match ws {
        Whens::Nil => Ok(t),
        Whens::Cons(c, y, rest) => {
            match expr_type(cx, env, agg, *c) {
                Err(f) => Err(f),
                Ok(v) => {
                    match compared_type(x, v) {
                        Err(f) => Err(f),
                        Ok(_c) => {
                            match expr_type(cx, env, agg, *y) {
                                Err(f) => Err(f),
                                Ok(u) => {
                                    match common_type(t, u) {
                                        None => Err(Fault::TypesDiffer),
                                        Some(w) => switch_type(cx, env, agg, x, w, *rest),
                                    }
                                },
                            }
                        },
                    }
                },
            }
        },
    }
}

/// The type of a function on texts of values of the types `t`, `u` and `v`.
pub open spec fn call_type(f: TextFn, t: Ty, u: Ty, v: Ty) -> Result<Ty, Fault>
{
    match f {
        TextFn::Upper => text_type(textual(t), t.nullable),
        TextFn::Lower => text_type(textual(t), t.nullable),
        TextFn::Trim => text_type(textual(t), t.nullable),
        TextFn::Cast => text_type(true, t.nullable),
        TextFn::Join => text_type(textual(t) || textual(u), t.nullable || u.nullable),
        TextFn::Concat => text_type(true, false),
        TextFn::Fill => text_type(true, false),
        TextFn::Replace => text_type(
            textual(t) && textual(u) && textual(v),
            t.nullable || u.nullable || v.nullable,
        ),
        TextFn::Substring => text_type(
            textual(t) && numeric(u) && numeric(v),
            t.nullable || u.nullable || v.nullable,
        ),
        TextFn::Lpad => text_type(
            textual(t) && numeric(u) && textual(v),
            t.nullable || u.nullable || v.nullable,
        ),
        TextFn::Rpad => text_type(
            textual(t) && numeric(u) && textual(v),
            t.nullable || u.nullable || v.nullable,
        ),
        TextFn::Repeat => text_type(textual(t) && numeric(u), t.nullable || u.nullable),
        TextFn::Length => if textual(t) {
            Ok(Ty { ty: Some(DataType::Int), nullable: t.nullable })
        } else {
            Err(Fault::OperatorMissing)
        },
        TextFn::Position => if textual(t) && textual(u) {
            Ok(Ty { ty: Some(DataType::Int), nullable: t.nullable || u.nullable })
        } else {
            Err(Fault::OperatorMissing)
        },
    }
}

/// The type of a text, if the values that it is made of have the right types.
pub open spec fn text_type(ok: bool, nullable: bool) -> Result<Ty, Fault>
{
    if ok {
        Ok(Ty { ty: Some(DataType::Text), nullable })
    } else {
        Err(Fault::OperatorMissing)
    }
}

/// The type of the first of several values that is not null, where those before
/// have the type `t`.
pub open spec fn coalesced_type(
    cx: CxModel,
    env: Env,
    agg: bool,
    t: Ty,
    es: Exprs,
) -> Result<Ty, Fault>
    decreases es, 0int,
{
    match es {
        Exprs::Nil => Ok(t),
        Exprs::Cons(e, rest) => {
            match expr_type(cx, env, agg, *e) {
                Err(f) => Err(f),
                Ok(u) => {
                    match common_type(t, u) {
                        None => Err(Fault::TypesDiffer),
                        Some(v) => coalesced_type(
                            cx,
                            env,
                            agg,
                            Ty { ty: v.ty, nullable: t.nullable && u.nullable },
                            *rest,
                        ),
                    }
                },
            }
        },
    }
}

/// The types of several expressions, as columns without names.
pub open spec fn all_types(cx: CxModel, env: Env, es: Exprs) -> Result<Fields, Fault>
    decreases es, 0int,
{
    match es {
        Exprs::Nil => Ok(Fields::Nil),
        Exprs::Cons(e, rest) => {
            match expr_type(cx, env, false, *e) {
                Err(f) => Err(f),
                Ok(t) => {
                    match all_types(cx, env, *rest) {
                        Err(f) => Err(f),
                        Ok(more) => {
                            Ok(Fields::Cons(output_field(symbols::ANONYMOUS, t), Box::new(more)))
                        },
                    }
                },
            }
        },
    }
}

/// A column of a result.
pub open spec fn output_field(name: usize, t: Ty) -> Field
{
    Field { qualifier: None, name, ty: t.ty, nullable: t.nullable, hidden: false }
}

/// The type of the one column of a query.
pub open spec fn single_column(cx: CxModel, env: Env, q: Query) -> Result<Ty, Fault>
    decreases q, 1int,
{
    match query_fields(cx, env, q) {
        Err(f) => Err(f),
        Ok(fs) => {
            match fs {
                Fields::Cons(f, rest) => match *rest {
                    Fields::Nil => Ok(Ty { ty: f.ty, nullable: true }),
                    _ => Err(Fault::SubqueryWidth),
                },
                _ => Err(Fault::SubqueryWidth),
            }
        },
    }
}

/// The columns of a query.
pub open spec fn query_fields(cx: CxModel, env: Env, q: Query) -> Result<Fields, Fault>
    decreases q, 0int,
{
    match q {
        Query::Select(s) => select_fields(cx, env, *s),
        Query::Values(rows) => values_fields(cx, env, *rows),
        Query::Series(a, b) => {
            match expr_type(cx, env, false, *a) {
                Err(f) => Err(f),
                Ok(t) => {
                    match expr_type(cx, env, false, *b) {
                        Err(f) => Err(f),
                        Ok(u) => {
                            match calculated_type(t, u) {
                                Err(f) => Err(f),
                                Ok(v) => {
                                    Ok(
                                        Fields::Cons(
                                            output_field(
                                                symbols::ANONYMOUS,
                                                Ty { ty: v.ty, nullable: false },
                                            ),
                                            Box::new(Fields::Nil),
                                        ),
                                    )
                                },
                            }
                        },
                    }
                },
            }
        },
        Query::Combined(_, _, a, b) => {
            match query_fields(cx, env, *a) {
                Err(f) => Err(f),
                Ok(fs) => {
                    match query_fields(cx, env, *b) {
                        Err(f) => Err(f),
                        Ok(gs) => {
                            combined_fields(fs, gs)
                        },
                    }
                },
            }
        },
        Query::Sorted(inner, orders, _, _) => {
            match query_fields(cx, env, *inner) {
                Err(f) => Err(f),
                Ok(fs) => {
                    match output_orders_ok(fs, *orders) {
                        Err(f) => Err(f),
                        Ok(_) => {
                            Ok(fs)
                        },
                    }
                },
            }
        },
        Query::With(n, cols, def, body) => {
            match query_fields(cx, env, *def) {
                Err(f) => Err(f),
                Ok(fs) => {
                    let gs: Fields = fields::renamed(fs, *cols);
                    query_fields(with_named(cx, n, gs, Seq::empty()), env, *body)
                },
            }
        },
    }
}

/// The column of a result that a sort key names by its position or its name:
/// `Some(None)` where there is no such position, `None` where the sort key is
/// another expression.
pub open spec fn output_place(fs: Fields, e: Expr) -> Option<Option<usize>>
{
    match e {
        Expr::Lit(Datum::Int(k)) => if k >= 1 {
            match fields::field_at(fs, (k - 1) as usize as nat) {
                Some(_) => Some(Some((k - 1) as usize)),
                None => Some(None),
            }
        } else {
            Some(None)
        },
        Expr::Col(None, n) => match fields::find(fs, None, n) {
            Found::One(i) => Some(Some(i)),
            _ => None,
        },
        _ => None,
    }
}

/// Whether a sort key is taken from windows and from no aggregate.
pub open spec fn ranked(e: Expr) -> bool
{
    has_window(e) && !has_aggregate(e)
}

/// Whether the sort keys of a query block can be computed.
pub open spec fn orders_ok(
    cx: CxModel,
    env: Env,
    fs: Fields,
    agg: bool,
    os: Orders,
) -> Result<(), Fault>
    decreases os, 0int,
{
    match os {
        Orders::Nil => Ok(()),
        Orders::Cons(e, _, _, rest) => match output_place(fs, *e) {
            Some(None) => Err(Fault::OrderPosition),
            Some(Some(_)) => orders_ok(cx, env, fs, agg, *rest),
            None => {
                match expr_type(cx, env, agg || ranked(*e), *e) {
                    Err(f) => Err(f),
                    Ok(_t) => {
                        orders_ok(cx, env, fs, agg, *rest)
                    },
                }
            },
        },
    }
}

/// Whether all sort keys name columns of the result.
pub open spec fn output_orders_ok(fs: Fields, os: Orders) -> Result<(), Fault>
    decreases os,
{
    match os {
        Orders::Nil => Ok(()),
        Orders::Cons(e, _, _, rest) => match output_place(fs, *e) {
            Some(Some(_)) => output_orders_ok(fs, *rest),
            _ => Err(Fault::OrderPosition),
        },
    }
}

/// The columns of a list of values.
pub open spec fn values_fields(cx: CxModel, env: Env, rows: ExprRows) -> Result<Fields, Fault>
    decreases rows, 0int,
{
    match rows {
        ExprRows::Nil => Ok(Fields::Nil),
        ExprRows::Cons(row, rest) => {
            match all_types(cx, env, *row) {
                Err(f) => Err(f),
                Ok(fs) => {
                    match *rest {
                        ExprRows::Nil => Ok(fs),
                        _ => {
                            match values_fields(cx, env, *rest) {
                                Err(f) => Err(f),
                                Ok(gs) => {
                                    match combined_fields(fs, gs) {
                                        Err(Fault::SetOperationWidth) => Err(Fault::ValuesWidth),
                                        Err(f) => Err(f),
                                        Ok(hs) => Ok(hs),
                                    }
                                },
                            }
                        },
                    }
                },
            }
        },
    }
}

/// The columns of a query block.
pub open spec fn select_fields(cx: CxModel, env: Env, s: Select) -> Result<Fields, Fault>
    decreases s, 2int,
{
    match source_fields(cx, env, s.source) {
        Err(f) => Err(f),
        Ok(src) => {
            block_fields(cx, Env::Frame(&src, &Tuple::Nil, &env), src, s)
        },
    }
}

/// The columns of a query block whose rows have the columns `src`.
pub open spec fn block_fields(
    cx: CxModel,
    env: Env,
    src: Fields,
    s: Select,
) -> Result<Fields, Fault>
    decreases s, 1int,
{
    if windows_misplaced(s) {
        Err(Fault::MisplacedWindow)
    } else {
        placed_block_fields(cx, env, src, s)
    }
}

/// The columns of a query block that calls window functions on its rows alone.
pub open spec fn placed_block_fields(
    cx: CxModel,
    env: Env,
    src: Fields,
    s: Select,
) -> Result<Fields, Fault>
    decreases s, 0int,
{
    match condition_type(cx, env, false, s.filter) {
        Err(f) => Err(f),
        Ok(_f) => {
            match all_types(cx, env, s.group) {
                Err(f) => Err(f),
                Ok(_g) => {
                    match condition_type(cx, env, true, s.having) {
                        Err(f) => Err(f),
                        Ok(_h) => {
                            match distinct_ok(cx, env, s.distinct) {
                                Err(f) => Err(f),
                                Ok(_d) => {
                                    match items_fields(cx, env, src, s.items) {
                                        Err(f) => Err(f),
                                        Ok(fs) => {
                                            match orders_ok(cx, env, fs, is_grouped(s), s.orders) {
                                                Err(f) => Err(f),
                                                Ok(_o) => {
                                                    if is_grouped(s) {
                                                        match items_grouped_ok(src, s.group, s.items) {
                                                            Err(f) => Err(f),
                                                            Ok(_) => {
                                                                match grouped_ok(src, s.group, s.having) {
                                                                    Err(f) => Err(f),
                                                                    Ok(_) => {
                                                                        Ok(fs)
                                                                    },
                                                                }
                                                            },
                                                        }
                                                    } else {
                                                        Ok(fs)
                                                    }
                                                },
                                            }
                                        },
                                    }
                                },
                            }
                        },
                    }
                },
            }
        },
    }
}

/// Whether the values by which duplicates are told can be computed.
pub open spec fn distinct_ok(cx: CxModel, env: Env, d: Distinct) -> Result<(), Fault>
    decreases d, 0int,
{
    match d {
        Distinct::On(es) => {
            match all_types(cx, env, *es) {
                Err(f) => Err(f),
                Ok(_fs) => {
                    Ok(())
                },
            }
        },
        _ => Ok(()),
    }
}

/// The columns of a select list.
pub open spec fn items_fields(
    cx: CxModel,
    env: Env,
    src: Fields,
    items: Items,
) -> Result<Fields, Fault>
    decreases items, 0int,
{
    match items {
        Items::Nil => Ok(Fields::Nil),
        Items::Cons(item, rest) => {
            match item_fields(cx, env, src, item) {
                Err(f) => Err(f),
                Ok(first) => {
                    match items_fields(cx, env, src, *rest) {
                        Err(f) => Err(f),
                        Ok(more) => {
                            Ok(fields::fields_append(first, more))
                        },
                    }
                },
            }
        },
    }
}

/// The columns of one entry of a select list.
pub open spec fn item_fields(
    cx: CxModel,
    env: Env,
    src: Fields,
    item: Item,
) -> Result<Fields, Fault>
    decreases item, 0int,
{
    match item {
        Item::Star => Ok(fields::visible_fields(src)),
        Item::TableStar(q) => match fields::fields_of(src, q) {
            Fields::Nil => Err(Fault::UndefinedTable { schema: None, name: q }),
            fs => Ok(fs),
        },
        Item::Expr(e, alias) => {
            match expr_type(cx, env, true, *e) {
                Err(f) => Err(f),
                Ok(t) => {
                    let name: usize = match alias {
                        Some(n) => n,
                        None => item_name(*e),
                    };
                    Ok(Fields::Cons(output_field(name, t), Box::new(Fields::Nil)))
                },
            }
        },
    }
}

/// The columns of a source.
pub open spec fn source_fields(cx: CxModel, env: Env, src: Source) -> Result<Fields, Fault>
    decreases src, 0int,
{
    match src {
        Source::Nothing => Ok(Fields::Nil),
        Source::Table(n, alias) => {
            let q: usize = match alias {
                Some(a) => a,
                None => n.name,
            };
            match query_named(cx, n) {
                Some(fs) => Ok(fields::requalified(fs, q)),
                None => match catalog::resolved(cx.db.tables, cx.path, n) {
                    None => Err(Fault::UndefinedTable { schema: n.schema, name: n.name }),
                    Some(i) => if catalog::allowed(
                        cx.db,
                        cx.user,
                        cx.db.tables[i as int],
                        catalog::reading(),
                    ) {
                        Ok(fields::table_fields(cx.db.tables[i as int].columns, q))
                    } else {
                        Err(Fault::Denied { name: n.name })
                    },
                },
            }
        },
        Source::Sub(q, alias, cols) => {
            match query_fields(cx, env, *q) {
                Err(f) => Err(f),
                Ok(fs) => {
                    Ok(fields::requalified(fields::renamed(fs, *cols), alias))
                },
            }
        },
        Source::Join(kind, a, b, on) => {
            match source_fields(cx, env, *a) {
                Err(f) => Err(f),
                Ok(l) => {
                    match source_fields(cx, env, *b) {
                        Err(f) => Err(f),
                        Ok(r) => {
                            match join_pairs(l, r, on) {
                                Err(f) => Err(f),
                                Ok(_p) => {
                                    let fs: Fields = join_fields(kind, l, r, on);
                                    match join_ok(cx, Env::Frame(&fs, &Tuple::Nil, &env), on) {
                                        Err(f) => Err(f),
                                        Ok(_) => {
                                            Ok(fs)
                                        },
                                    }
                                },
                            }
                        },
                    }
                },
            }
        },
    }
}

/// Whether the condition of a join is a truth value.
pub open spec fn join_ok(cx: CxModel, env: Env, on: JoinOn) -> Result<(), Fault>
    decreases on, 0int,
{
    match on {
        JoinOn::On(e) => {
            match condition_type(cx, env, false, *e) {
                Err(f) => Err(f),
                Ok(_t) => {
                    Ok(())
                },
            }
        },
        _ => Ok(()),
    }
}

pub fn infer_literal_type(d: Datum) -> (out: Ty)
    ensures
        out == literal_type(d),
{
    match d {
        Datum::Null => Ty { ty: None, nullable: true },
        Datum::Int(_) => Ty { ty: Some(DataType::Int), nullable: false },
        Datum::Big(_) => Ty { ty: Some(DataType::BigInt), nullable: false },
        Datum::Bool(_) => Ty { ty: Some(DataType::Boolean), nullable: false },
        Datum::Text(_) => Ty { ty: Some(DataType::Text), nullable: false },
    }
}

pub fn infer_numeric(t: Ty) -> (out: bool)
    ensures
        out == numeric(t),
{
    match t.ty {
        None => true,
        Some(DataType::Int) => true,
        Some(DataType::BigInt) => true,
        _ => false,
    }
}

pub fn infer_truth(t: Ty) -> (out: bool)
    ensures
        out == truth(t),
{
    match t.ty {
        None => true,
        Some(DataType::Boolean) => true,
        _ => false,
    }
}

pub fn infer_common_type(a: Ty, b: Ty) -> (out: Option<Ty>)
    ensures
        out == common_type(a, b),
{
    match (a.ty, b.ty) {
        (None, _) => Some(Ty { ty: b.ty, nullable: true }),
        (_, None) => Some(Ty { ty: a.ty, nullable: true }),
        (Some(x), Some(y)) => if x == y {
            Some(Ty { ty: a.ty, nullable: a.nullable || b.nullable })
        } else if infer_numeric(a) && infer_numeric(b) {
            Some(Ty { ty: Some(DataType::BigInt), nullable: a.nullable || b.nullable })
        } else {
            None
        },
    }
}

pub fn infer_compared_type(a: Ty, b: Ty) -> (out: Result<Ty, Fault>)
    ensures
        out == compared_type(a, b),
{
    match infer_common_type(a, b) {
        Some(_) => Ok(Ty { ty: Some(DataType::Boolean), nullable: a.nullable || b.nullable }),
        None => Err(Fault::OperatorMissing),
    }
}

pub fn infer_calculated_type(a: Ty, b: Ty) -> (out: Result<Ty, Fault>)
    ensures
        out == calculated_type(a, b),
{
    if !infer_numeric(a) || !infer_numeric(b) {
        Err(Fault::OperatorMissing)
    } else {
        match infer_common_type(a, b) {
            Some(t) => match t.ty {
                None => Ok(Ty { ty: Some(DataType::Int), nullable: true }),
                Some(_) => Ok(t),
            },
            None => Err(Fault::OperatorMissing),
        }
    }
}

pub fn infer_has_aggregate(e: &Expr) -> (out: bool)
    ensures
        out == has_aggregate(*e),
    decreases e,
{
    match e {
        Expr::CountRows => true,
        Expr::Agg(_, _, _) => true,
        Expr::Not(x) => infer_has_aggregate(x),
        Expr::Negate(x) => infer_has_aggregate(x),
        Expr::And(x, y) => infer_has_aggregate(x) || infer_has_aggregate(y),
        Expr::Or(x, y) => infer_has_aggregate(x) || infer_has_aggregate(y),
        Expr::Compare(_, x, y) => infer_has_aggregate(x) || infer_has_aggregate(y),
        Expr::Arith(_, x, y) => infer_has_aggregate(x) || infer_has_aggregate(y),
        Expr::IsNull(x, _) => infer_has_aggregate(x),
        Expr::InList(x, list, _) => infer_has_aggregate(x) || infer_any_aggregate(list),
        Expr::InQuery(x, _, _) => infer_has_aggregate(x),
        Expr::Between(x, y, z, _) => infer_has_aggregate(x)
            || infer_has_aggregate(y)
            || infer_has_aggregate(z),
        Expr::Case(whens, otherwise) => infer_whens_aggregate(whens) || infer_has_aggregate(otherwise),
        Expr::Coalesce(list) => infer_any_aggregate(list),
        Expr::Cast(x, _) => infer_has_aggregate(x),
        Expr::Like(x, y, _) => infer_has_aggregate(x) || infer_has_aggregate(y),
        Expr::NullIf(x, y) => infer_has_aggregate(x) || infer_has_aggregate(y),
        Expr::Switch(x, whens, otherwise) => infer_has_aggregate(x)
            || infer_whens_aggregate(whens)
            || infer_has_aggregate(otherwise),
        Expr::Call(_, _, x, y, z) => infer_has_aggregate(x)
            || infer_has_aggregate(y)
            || infer_has_aggregate(z),
        _ => false,
    }
}

pub fn infer_any_aggregate(es: &Exprs) -> (out: bool)
    ensures
        out == any_aggregate(*es),
    decreases es,
{
    match es {
        Exprs::Nil => false,
        Exprs::Cons(e, rest) => infer_has_aggregate(e) || infer_any_aggregate(rest),
    }
}

pub fn infer_whens_aggregate(ws: &Whens) -> (out: bool)
    ensures
        out == whens_aggregate(*ws),
    decreases ws,
{
    match ws {
        Whens::Nil => false,
        Whens::Cons(c, x, rest) => infer_has_aggregate(c)
            || infer_has_aggregate(x)
            || infer_whens_aggregate(rest),
    }
}

pub fn infer_items_aggregate(items: &Items) -> (out: bool)
    ensures
        out == items_aggregate(*items),
    decreases items,
{
    match items {
        Items::Nil => false,
        Items::Cons(Item::Expr(e, _), rest) => infer_has_aggregate(e) || infer_items_aggregate(rest),
        Items::Cons(_, rest) => infer_items_aggregate(rest),
    }
}

pub fn infer_is_grouped(s: &Select) -> (out: bool)
    ensures
        out == is_grouped(*s),
{
    s.has_having || !matches!(&s.group, Exprs::Nil) || infer_items_aggregate(&s.items)
}

pub fn infer_has_window(e: &Expr) -> (out: bool)
    ensures
        out == has_window(*e),
    decreases e,
{
    match e {
        Expr::Window(_, _, _) => true,
        Expr::Agg(_, _, x) => infer_has_window(x),
        Expr::Not(x) => infer_has_window(x),
        Expr::Negate(x) => infer_has_window(x),
        Expr::And(x, y) => infer_has_window(x) || infer_has_window(y),
        Expr::Or(x, y) => infer_has_window(x) || infer_has_window(y),
        Expr::Compare(_, x, y) => infer_has_window(x) || infer_has_window(y),
        Expr::Arith(_, x, y) => infer_has_window(x) || infer_has_window(y),
        Expr::IsNull(x, _) => infer_has_window(x),
        Expr::InList(x, list, _) => infer_has_window(x) || infer_any_window(list),
        Expr::InQuery(x, _, _) => infer_has_window(x),
        Expr::Between(x, y, z, _) => infer_has_window(x) || infer_has_window(y) || infer_has_window(z),
        Expr::Case(whens, otherwise) => infer_whens_window(whens) || infer_has_window(otherwise),
        Expr::Coalesce(list) => infer_any_window(list),
        Expr::Cast(x, _) => infer_has_window(x),
        Expr::Like(x, y, _) => infer_has_window(x) || infer_has_window(y),
        Expr::NullIf(x, y) => infer_has_window(x) || infer_has_window(y),
        Expr::Switch(x, whens, otherwise) => infer_has_window(x)
            || infer_whens_window(whens)
            || infer_has_window(otherwise),
        Expr::Call(_, _, x, y, z) => infer_has_window(x) || infer_has_window(y) || infer_has_window(z),
        _ => false,
    }
}

pub fn infer_any_window(es: &Exprs) -> (out: bool)
    ensures
        out == any_window(*es),
    decreases es,
{
    match es {
        Exprs::Nil => false,
        Exprs::Cons(e, rest) => infer_has_window(e) || infer_any_window(rest),
    }
}

pub fn infer_whens_window(ws: &Whens) -> (out: bool)
    ensures
        out == whens_window(*ws),
    decreases ws,
{
    match ws {
        Whens::Nil => false,
        Whens::Cons(c, x, rest) => infer_has_window(c)
            || infer_has_window(x)
            || infer_whens_window(rest),
    }
}

pub fn infer_items_window(items: &Items) -> (out: bool)
    ensures
        out == items_window(*items),
    decreases items,
{
    match items {
        Items::Nil => false,
        Items::Cons(Item::Expr(e, _), rest) => infer_has_window(e) || infer_items_window(rest),
        Items::Cons(_, rest) => infer_items_window(rest),
    }
}

pub fn infer_orders_window(os: &Orders) -> (out: bool)
    ensures
        out == orders_window(*os),
    decreases os,
{
    match os {
        Orders::Nil => false,
        Orders::Cons(e, _, _, rest) => infer_has_window(e) || infer_orders_window(rest),
    }
}

pub fn infer_windowed(s: &Select) -> (out: bool)
    ensures
        out == windowed(*s),
{
    infer_items_window(&s.items) || infer_orders_window(&s.orders)
}

pub fn infer_windows_misplaced(s: &Select) -> (out: bool)
    ensures
        out == windows_misplaced(*s),
{
    infer_has_window(&s.filter) || infer_any_window(&s.group) || infer_has_window(&s.having) || (
        infer_is_grouped(s) && infer_windowed(s)
    )
}

pub fn infer_reads_rows(e: &Expr) -> (out: bool)
    ensures
        out == reads_rows(*e),
    decreases e,
{
    match e {
        Expr::Lit(_) => false,
        Expr::Param(_) => false,
        Expr::Default => false,
        Expr::Not(x) => infer_reads_rows(x),
        Expr::Negate(x) => infer_reads_rows(x),
        Expr::And(x, y) => infer_reads_rows(x) || infer_reads_rows(y),
        Expr::Or(x, y) => infer_reads_rows(x) || infer_reads_rows(y),
        Expr::Compare(_, x, y) => infer_reads_rows(x) || infer_reads_rows(y),
        Expr::Arith(_, x, y) => infer_reads_rows(x) || infer_reads_rows(y),
        Expr::IsNull(x, _) => infer_reads_rows(x),
        Expr::InList(x, list, _) => infer_reads_rows(x) || infer_any_reads_rows(list),
        Expr::Between(x, y, z, _) => infer_reads_rows(x) || infer_reads_rows(y) || infer_reads_rows(z),
        Expr::Case(whens, otherwise) => infer_whens_read_rows(whens) || infer_reads_rows(otherwise),
        Expr::Coalesce(list) => infer_any_reads_rows(list),
        Expr::Cast(x, _) => infer_reads_rows(x),
        Expr::Like(x, y, _) => infer_reads_rows(x) || infer_reads_rows(y),
        Expr::NullIf(x, y) => infer_reads_rows(x) || infer_reads_rows(y),
        Expr::Switch(x, whens, otherwise) => infer_reads_rows(x)
            || infer_whens_read_rows(whens)
            || infer_reads_rows(otherwise),
        Expr::Call(_, _, x, y, z) => infer_reads_rows(x) || infer_reads_rows(y) || infer_reads_rows(z),
        _ => true,
    }
}

pub fn infer_any_reads_rows(es: &Exprs) -> (out: bool)
    ensures
        out == any_reads_rows(*es),
    decreases es,
{
    match es {
        Exprs::Nil => false,
        Exprs::Cons(e, rest) => infer_reads_rows(e) || infer_any_reads_rows(rest),
    }
}

pub fn infer_whens_read_rows(ws: &Whens) -> (out: bool)
    ensures
        out == whens_read_rows(*ws),
    decreases ws,
{
    match ws {
        Whens::Nil => false,
        Whens::Cons(c, x, rest) => infer_reads_rows(c)
            || infer_reads_rows(x)
            || infer_whens_read_rows(rest),
    }
}

pub fn infer_items_read_rows(items: &Items) -> (out: bool)
    ensures
        out == items_read_rows(*items),
    decreases items,
{
    match items {
        Items::Nil => false,
        Items::Cons(Item::Expr(e, _), rest) => infer_reads_rows(e) || infer_items_read_rows(rest),
        Items::Cons(_, _) => true,
    }
}

pub fn infer_orders_read_rows(os: &Orders) -> (out: bool)
    ensures
        out == orders_read_rows(*os),
    decreases os,
{
    match os {
        Orders::Nil => false,
        Orders::Cons(e, _, _, rest) => infer_reads_rows(e) || infer_orders_read_rows(rest),
    }
}

pub fn infer_distinct_reads_rows(d: &Distinct) -> (out: bool)
    ensures
        out == distinct_reads_rows(*d),
{
    match d {
        Distinct::On(es) => infer_any_reads_rows(es),
        _ => false,
    }
}

pub fn infer_needs_rows(s: &Select) -> (out: bool)
    ensures
        out == needs_rows(*s),
{
    !s.has_having || !matches!(&s.group, Exprs::Nil) || infer_items_read_rows(&s.items) || infer_reads_rows(&s.having) || infer_orders_read_rows(&s.orders) || infer_distinct_reads_rows(&s.distinct)
}

pub fn infer_alike(fs: &Fields, a: &Expr, b: &Expr) -> (out: bool)
    ensures
        out == alike(*fs, *a, *b),
    decreases a,
{
    match (a, b) {
        (Expr::Col(p, m), Expr::Col(q, n)) => match fs.locate(*p, *m) {
            Found::One(i) => fs.locate(*q, *n) == Found::One(i),
            _ => false,
        },
        (Expr::Lit(x), Expr::Lit(y)) => *x == *y,
        (Expr::Not(x), Expr::Not(y)) => infer_alike(fs, x, y),
        (Expr::Negate(x), Expr::Negate(y)) => infer_alike(fs, x, y),
        (Expr::And(x, u), Expr::And(y, v)) => infer_alike(fs, x, y) && infer_alike(fs, u, v),
        (Expr::Or(x, u), Expr::Or(y, v)) => infer_alike(fs, x, y) && infer_alike(fs, u, v),
        (
            Expr::Compare(c, x, u),
            Expr::Compare(d, y, v),
        ) => *c == *d && infer_alike(fs, x, y) && infer_alike(fs, u, v),
        (
            Expr::Arith(c, x, u),
            Expr::Arith(d, y, v),
        ) => *c == *d && infer_alike(fs, x, y) && infer_alike(fs, u, v),
        (Expr::IsNull(x, c), Expr::IsNull(y, d)) => *c == *d && infer_alike(fs, x, y),
        (Expr::Cast(x, c), Expr::Cast(y, d)) => *c == *d && infer_alike(fs, x, y),
        (
            Expr::Call(f, _, x, u, a),
            Expr::Call(g, _, y, v, b),
        ) => *f == *g && infer_alike(fs, x, y) && infer_alike(fs, u, v) && infer_alike(fs, a, b),
        _ => false,
    }
}

pub fn infer_grouping(fs: &Fields, group: &Exprs, e: &Expr) -> (out: bool)
    ensures
        out == grouping(*fs, *group, *e),
    decreases group,
{
    match group {
        Exprs::Nil => false,
        Exprs::Cons(g, rest) => infer_alike(fs, g, e) || infer_grouping(fs, rest, e),
    }
}

pub fn infer_grouped_ok(fs: &Fields, group: &Exprs, e: &Expr) -> (out: Result<(), Fault>)
    ensures
        out == grouped_ok(*fs, *group, *e),
    decreases e,
{
    if infer_grouping(fs, group, e) {
        Ok(())
    } else {
        match e {
            Expr::Col(q, n) => match fs.locate(*q, *n) {
                Found::One(i) => match fs.at(i) {
                    Some(f) => Err(Fault::UngroupedColumn { table: f.qualifier, name: f.name }),
                    None => Ok(()),
                },
                _ => Ok(()),
            },
            Expr::Not(x) => infer_grouped_ok(fs, group, x),
            Expr::Negate(x) => infer_grouped_ok(fs, group, x),
            Expr::And(x, y) => {
                let _: () = infer_grouped_ok(fs, group, x)?;
                infer_grouped_ok(fs, group, y)
            },
            Expr::Or(x, y) => {
                let _: () = infer_grouped_ok(fs, group, x)?;
                infer_grouped_ok(fs, group, y)
            },
            Expr::Compare(_, x, y) => {
                let _: () = infer_grouped_ok(fs, group, x)?;
                infer_grouped_ok(fs, group, y)
            },
            Expr::Arith(_, x, y) => {
                let _: () = infer_grouped_ok(fs, group, x)?;
                infer_grouped_ok(fs, group, y)
            },
            Expr::IsNull(x, _) => infer_grouped_ok(fs, group, x),
            Expr::InList(x, list, _) => {
                let _: () = infer_grouped_ok(fs, group, x)?;
                infer_all_grouped_ok(fs, group, list)
            },
            Expr::InQuery(x, _, _) => infer_grouped_ok(fs, group, x),
            Expr::Between(x, y, z, _) => {
                let _: () = infer_grouped_ok(fs, group, x)?;
                let _: () = infer_grouped_ok(fs, group, y)?;
                infer_grouped_ok(fs, group, z)
            },
            Expr::Case(whens, otherwise) => {
                let _: () = infer_whens_grouped_ok(fs, group, whens)?;
                infer_grouped_ok(fs, group, otherwise)
            },
            Expr::Coalesce(list) => infer_all_grouped_ok(fs, group, list),
            Expr::Cast(x, _) => infer_grouped_ok(fs, group, x),
            Expr::Like(x, y, _) => {
                let _: () = infer_grouped_ok(fs, group, x)?;
                infer_grouped_ok(fs, group, y)
            },
            Expr::NullIf(x, y) => {
                let _: () = infer_grouped_ok(fs, group, x)?;
                infer_grouped_ok(fs, group, y)
            },
            Expr::Switch(x, whens, otherwise) => {
                let _: () = infer_grouped_ok(fs, group, x)?;
                let _: () = infer_whens_grouped_ok(fs, group, whens)?;
                infer_grouped_ok(fs, group, otherwise)
            },
            Expr::Call(_, _, x, y, z) => {
                let _: () = infer_grouped_ok(fs, group, x)?;
                let _: () = infer_grouped_ok(fs, group, y)?;
                infer_grouped_ok(fs, group, z)
            },
            _ => Ok(()),
        }
    }
}

pub fn infer_all_grouped_ok(fs: &Fields, group: &Exprs, es: &Exprs) -> (out: Result<(), Fault>)
    ensures
        out == all_grouped_ok(*fs, *group, *es),
    decreases es,
{
    match es {
        Exprs::Nil => Ok(()),
        Exprs::Cons(e, rest) => {
            let _: () = infer_grouped_ok(fs, group, e)?;
            infer_all_grouped_ok(fs, group, rest)
        },
    }
}

pub fn infer_whens_grouped_ok(fs: &Fields, group: &Exprs, ws: &Whens) -> (out: Result<(), Fault>)
    ensures
        out == whens_grouped_ok(*fs, *group, *ws),
    decreases ws,
{
    match ws {
        Whens::Nil => Ok(()),
        Whens::Cons(c, x, rest) => {
            let _: () = infer_grouped_ok(fs, group, c)?;
            let _: () = infer_grouped_ok(fs, group, x)?;
            infer_whens_grouped_ok(fs, group, rest)
        },
    }
}

pub fn infer_items_grouped_ok(fs: &Fields, group: &Exprs, items: &Items) -> (out: Result<(), Fault>)
    ensures
        out == items_grouped_ok(*fs, *group, *items),
    decreases items,
{
    match items {
        Items::Nil => Ok(()),
        Items::Cons(Item::Expr(e, _), rest) => {
            let _: () = infer_grouped_ok(fs, group, e)?;
            infer_items_grouped_ok(fs, group, rest)
        },
        Items::Cons(_, rest) => {
            let _: () = infer_fields_grouped_ok(fs, group, fs)?;
            infer_items_grouped_ok(fs, group, rest)
        },
    }
}

pub fn infer_fields_grouped_ok(
    fs: &Fields,
    group: &Exprs,
    rest: &Fields,
) -> (out: Result<(), Fault>)
    ensures
        out == fields_grouped_ok(*fs, *group, *rest),
    decreases rest,
{
    match rest {
        Fields::Nil => Ok(()),
        Fields::Cons(f, more) => if f.hidden || infer_grouping(
            fs,
            group,
            &Expr::Col(f.qualifier, f.name),
        ) {
            infer_fields_grouped_ok(fs, group, more)
        } else {
            Err(Fault::UngroupedColumn { table: f.qualifier, name: f.name })
        },
    }
}

pub fn infer_item_name(e: &Expr) -> (out: usize)
    ensures
        out == item_name(*e),
    decreases e,
{
    match e {
        Expr::Col(_, n) => *n,
        Expr::CountRows => symbols::COUNT,
        Expr::Agg(AggFn::Count, _, _) => symbols::COUNT,
        Expr::Agg(AggFn::Sum, _, _) => symbols::SUM,
        Expr::Agg(AggFn::Min, _, _) => symbols::MIN,
        Expr::Agg(AggFn::Max, _, _) => symbols::MAX,
        Expr::Exists(_) => symbols::EXISTS,
        Expr::Case(_, _) => symbols::CASE,
        Expr::Switch(_, _, _) => symbols::CASE,
        Expr::Call(_, n, _, _, _) => *n,
        Expr::Window(_, n, _) => *n,
        Expr::Next(_, n) => *n,
        Expr::Coalesce(_) => symbols::COALESCE,
        Expr::Cast(x, _) => infer_item_name(x),
        _ => symbols::ANONYMOUS,
    }
}

pub fn infer_using_pairs(l: &Fields, r: &Fields, names: &Idents) -> (out: Result<Pairs, Fault>)
    ensures
        out == using_pairs(*l, *r, *names),
    decreases names,
{
    match names {
        Idents::Nil => Ok(Pairs::Nil),
        Idents::Cons(n, rest) => match (l.locate(None, *n), r.locate(None, *n)) {
            (Found::One(i), Found::One(j)) => {
                let more: Pairs = infer_using_pairs(l, r, rest)?;
                Ok(Pairs::Cons(i, j, Box::new(more)))
            },
            (Found::Many, _) => Err(Fault::AmbiguousColumn { name: *n }),
            (_, Found::Many) => Err(Fault::AmbiguousColumn { name: *n }),
            _ => Err(Fault::UndefinedColumn { table: None, name: *n }),
        },
    }
}

pub fn infer_merged_fields(
    l: &Fields,
    names: &Idents,
    alias: Option<usize>,
    nullable: bool,
) -> (out: Fields)
    ensures
        out == merged_fields(*l, *names, alias, nullable),
    decreases names,
{
    match names {
        Idents::Nil => Fields::Nil,
        Idents::Cons(n, rest) => {
            let ty: Option<DataType> = match l.locate(None, *n) {
                Found::One(i) => match l.at(i) {
                    Some(f) => f.ty,
                    None => None,
                },
                _ => None,
            };
            let maybe: bool = match l.locate(None, *n) {
                Found::One(i) => match l.at(i) {
                    Some(f) => f.nullable || nullable,
                    None => true,
                },
                _ => true,
            };
            Fields::Cons(
                Field { qualifier: alias, name: *n, ty, nullable: maybe, hidden: false },
                Box::new(infer_merged_fields(l, rest, alias, nullable)),
            )
        },
    }
}

pub fn infer_join_names(l: &Fields, r: &Fields, on: &JoinOn) -> (out: Idents)
    ensures
        out == join_names(*l, *r, *on),
{
    match on {
        JoinOn::Using(names, _) => names.copy(),
        JoinOn::Natural => l.names_shared(r),
        _ => Idents::Nil,
    }
}

pub fn infer_join_alias(on: &JoinOn) -> (out: Option<usize>)
    ensures
        out == join_alias(*on),
{
    match on {
        JoinOn::Using(_, alias) => *alias,
        _ => None,
    }
}

pub fn infer_join_pairs(l: &Fields, r: &Fields, on: &JoinOn) -> (out: Result<Pairs, Fault>)
    ensures
        out == join_pairs(*l, *r, *on),
{
    let names: Idents = infer_join_names(l, r, on);
    infer_using_pairs(l, r, &names)
}

pub fn infer_join_fields(kind: JoinKind, l: &Fields, r: &Fields, on: &JoinOn) -> (out: Fields)
    ensures
        out == join_fields(kind, *l, *r, *on),
{
    let names: Idents = infer_join_names(l, r, on);
    let left: Fields = l.nullable_if(kind == JoinKind::Right || kind == JoinKind::Full);
    let right: Fields = r.nullable_if(kind == JoinKind::Left || kind == JoinKind::Full);
    let first: Fields = infer_merged_fields(
        l,
        &names,
        infer_join_alias(on),
        kind == JoinKind::Right || kind == JoinKind::Full,
    );
    let both: Fields = left.hiding(&names).append(&right.hiding(&names));
    first.append(&both)
}

pub fn infer_combined_fields(a: &Fields, b: &Fields) -> (out: Result<Fields, Fault>)
    ensures
        out == combined_fields(*a, *b),
    decreases a,
{
    match (a, b) {
        (Fields::Nil, Fields::Nil) => Ok(Fields::Nil),
        (Fields::Cons(f, more), Fields::Cons(g, rest)) => match infer_common_type(
            infer_stored_type(*f),
            infer_stored_type(*g),
        ) {
            None => Err(Fault::TypesDiffer),
            Some(t) => {
                let others: Fields = infer_combined_fields(more, rest)?;
                Ok(
                    Fields::Cons(
                        Field {
                            qualifier: None,
                            name: f.name,
                            ty: t.ty,
                            nullable: t.nullable,
                            hidden: false,
                        },
                        Box::new(others),
                    ),
                )
            },
        },
        _ => Err(Fault::SetOperationWidth),
    }
}

pub fn infer_expr_type(cx: &Cx, env: &Env, agg: bool, e: &Expr) -> (out: Result<Ty, Fault>)
    ensures
        out == expr_type(cx@, *env, agg, *e),
    decreases e, 0int,
{
    match e {
        Expr::Lit(d) => Ok(infer_literal_type(*d)),
        Expr::Col(q, n) => match env.field(*q, *n) {
            None => Err(Fault::UndefinedColumn { table: *q, name: *n }),
            Some(Err(_)) => Err(Fault::AmbiguousColumn { name: *n }),
            Some(Ok(f)) => Ok(infer_stored_type(f)),
        },
        Expr::Not(x) => infer_condition_type(cx, env, agg, x),
        Expr::Negate(x) => {
            let t: Ty = infer_expr_type(cx, env, agg, x)?;
            infer_calculated_type(t, t)
        },
        Expr::And(x, y) => {
            let t: Ty = infer_condition_type(cx, env, agg, x)?;
            let u: Ty = infer_condition_type(cx, env, agg, y)?;
            Ok(Ty { ty: Some(DataType::Boolean), nullable: t.nullable || u.nullable })
        },
        Expr::Or(x, y) => {
            let t: Ty = infer_condition_type(cx, env, agg, x)?;
            let u: Ty = infer_condition_type(cx, env, agg, y)?;
            Ok(Ty { ty: Some(DataType::Boolean), nullable: t.nullable || u.nullable })
        },
        Expr::Compare(_, x, y) => {
            let t: Ty = infer_expr_type(cx, env, agg, x)?;
            let u: Ty = infer_expr_type(cx, env, agg, y)?;
            infer_compared_type(t, u)
        },
        Expr::Arith(_, x, y) => {
            let t: Ty = infer_expr_type(cx, env, agg, x)?;
            let u: Ty = infer_expr_type(cx, env, agg, y)?;
            infer_calculated_type(t, u)
        },
        Expr::IsNull(x, _) => {
            let _t: Ty = infer_expr_type(cx, env, agg, x)?;
            Ok(Ty { ty: Some(DataType::Boolean), nullable: false })
        },
        Expr::InList(x, list, _) => {
            let t: Ty = infer_expr_type(cx, env, agg, x)?;
            infer_list_compared(cx, env, agg, t, list)
        },
        Expr::InQuery(x, q, _) => {
            let t: Ty = infer_expr_type(cx, env, agg, x)?;
            let u: Ty = infer_single_column(cx, env, q)?;
            infer_compared_type(t, Ty { ty: u.ty, nullable: true })
        },
        Expr::Between(x, y, z, _) => {
            let t: Ty = infer_expr_type(cx, env, agg, x)?;
            let u: Ty = infer_expr_type(cx, env, agg, y)?;
            let v: Ty = infer_expr_type(cx, env, agg, z)?;
            let a: Ty = infer_compared_type(t, u)?;
            let b: Ty = infer_compared_type(t, v)?;
            Ok(Ty { ty: Some(DataType::Boolean), nullable: a.nullable || b.nullable })
        },
        Expr::Exists(q) => {
            let _fs: Fields = infer_query_fields(cx, env, q)?;
            Ok(Ty { ty: Some(DataType::Boolean), nullable: false })
        },
        Expr::Scalar(q) => infer_single_column(cx, env, q),
        Expr::Case(whens, otherwise) => {
            let t: Ty = infer_expr_type(cx, env, agg, otherwise)?;
            infer_whens_type(cx, env, agg, t, whens)
        },
        Expr::Coalesce(list) => infer_coalesced_type(
            cx,
            env,
            agg,
            Ty { ty: None, nullable: true },
            list,
        ),
        Expr::CountRows => if agg {
            Ok(Ty { ty: Some(DataType::BigInt), nullable: false })
        } else {
            Err(Fault::MisplacedAggregate)
        },
        Expr::Agg(f, _, x) => if agg {
            let t: Ty = infer_expr_type(cx, env, false, x)?;
            match f {
                AggFn::Count => Ok(Ty { ty: Some(DataType::BigInt), nullable: false }),
                AggFn::Sum => if infer_numeric(t) {
                    Ok(Ty { ty: t.ty, nullable: true })
                } else {
                    Err(Fault::OperatorMissing)
                },
                _ => Ok(Ty { ty: t.ty, nullable: true }),
            }
        } else {
            Err(Fault::MisplacedAggregate)
        },
        Expr::Next(n, _) => match cx.db.resolve_sequence(cx.path, *n) {
            None => Err(Fault::UndefinedSequence { name: n.name }),
            Some(_) => Ok(Ty { ty: Some(DataType::BigInt), nullable: false }),
        },
        Expr::Window(f, _, over) => if agg {
            infer_over_type(cx, env, *f, over)
        } else {
            Err(Fault::MisplacedWindow)
        },
        Expr::Cast(x, ty) => {
            let t: Ty = infer_expr_type(cx, env, agg, x)?;
            infer_cast_type(t, *ty)
        },
        Expr::Default => Err(Fault::MisplacedDefault),
        Expr::Param(k) => infer_param_type(cx, *k),
        Expr::Like(x, y, _) => {
            let t: Ty = infer_expr_type(cx, env, agg, x)?;
            let u: Ty = infer_expr_type(cx, env, agg, y)?;
            if infer_textual(t) && infer_textual(u) {
                Ok(Ty { ty: Some(DataType::Boolean), nullable: t.nullable || u.nullable })
            } else {
                Err(Fault::OperatorMissing)
            }
        },
        Expr::Switch(x, whens, otherwise) => {
            let v: Ty = infer_expr_type(cx, env, agg, x)?;
            let t: Ty = infer_expr_type(cx, env, agg, otherwise)?;
            infer_switch_type(cx, env, agg, v, t, whens)
        },
        Expr::Call(f, _, x, y, z) => {
            let t: Ty = infer_expr_type(cx, env, agg, x)?;
            let u: Ty = infer_expr_type(cx, env, agg, y)?;
            let v: Ty = infer_expr_type(cx, env, agg, z)?;
            infer_call_type(*f, t, u, v)
        },
        Expr::NullIf(x, y) => {
            let t: Ty = infer_expr_type(cx, env, agg, x)?;
            let u: Ty = infer_expr_type(cx, env, agg, y)?;
            let _c: Ty = infer_compared_type(t, u)?;
            Ok(Ty { ty: t.ty, nullable: true })
        },
    }
}

pub fn infer_textual(t: Ty) -> (out: bool)
    ensures
        out == textual(t),
{
    match t.ty {
        None => true,
        Some(DataType::Text) => true,
        _ => false,
    }
}

pub fn infer_param_type(cx: &Cx, k: u64) -> (out: Result<Ty, Fault>)
    ensures
        out == param_type(cx@, k),
{
    match cx.params {
        Params::Missing => Err(Fault::Parameter),
        Params::Unknown => Ok(Ty { ty: None, nullable: true }),
        Params::Given(values) => match value_of_param(values, k) {
            None => Err(Fault::Parameter),
            Some(d) => Ok(infer_literal_type(d)),
        },
    }
}

pub fn infer_stored_type(f: Field) -> (out: Ty)
    ensures
        out == stored_type(f),
{
    Ty { ty: f.ty, nullable: f.nullable }
}

pub fn infer_cast_type(t: Ty, ty: DataType) -> (out: Result<Ty, Fault>)
    ensures
        out == cast_type(t, ty),
{
    match t.ty {
        None => Ok(Ty { ty: Some(ty), nullable: true }),
        Some(from) => if from == ty {
            Ok(Ty { ty: Some(ty), nullable: t.nullable })
        } else if ty == DataType::Text {
            Ok(Ty { ty: Some(ty), nullable: t.nullable })
        } else if (from == DataType::Text || infer_numeric(t))
            && (ty == DataType::Int || ty == DataType::BigInt)
        {
            Ok(Ty { ty: Some(ty), nullable: t.nullable })
        } else {
            Err(Fault::OperatorMissing)
        },
    }
}

pub fn infer_over_type(cx: &Cx, env: &Env, f: WindowFn, over: &Over) -> (out: Result<Ty, Fault>)
    ensures
        out == over_type(cx@, *env, f, *over),
    decreases over, 0int,
{
    let t: Ty = infer_expr_type(cx, env, false, &over.arg)?;
    let _p: Fields = infer_all_types(cx, env, &over.partition)?;
    let _o: () = infer_window_orders_ok(cx, env, &over.orders)?;
    match f {
        WindowFn::Lag => Ok(Ty { ty: t.ty, nullable: true }),
        WindowFn::Lead => Ok(Ty { ty: t.ty, nullable: true }),
        WindowFn::Agg(AggFn::Sum) => if infer_numeric(t) {
            Ok(Ty { ty: t.ty, nullable: true })
        } else {
            Err(Fault::OperatorMissing)
        },
        WindowFn::Agg(AggFn::Min) => Ok(Ty { ty: t.ty, nullable: true }),
        WindowFn::Agg(AggFn::Max) => Ok(Ty { ty: t.ty, nullable: true }),
        _ => Ok(Ty { ty: Some(DataType::BigInt), nullable: false }),
    }
}

pub fn infer_window_orders_ok(cx: &Cx, env: &Env, os: &Orders) -> (out: Result<(), Fault>)
    ensures
        out == window_orders_ok(cx@, *env, *os),
    decreases os, 0int,
{
    match os {
        Orders::Nil => Ok(()),
        Orders::Cons(e, _, _, rest) => {
            let _t: Ty = infer_expr_type(cx, env, false, e)?;
            infer_window_orders_ok(cx, env, rest)
        },
    }
}

pub fn infer_condition_type(cx: &Cx, env: &Env, agg: bool, e: &Expr) -> (out: Result<Ty, Fault>)
    ensures
        out == condition_type(cx@, *env, agg, *e),
    decreases e, 1int,
{
    let t: Ty = infer_expr_type(cx, env, agg, e)?;
    if infer_truth(t) {
        Ok(Ty { ty: Some(DataType::Boolean), nullable: t.nullable })
    } else {
        Err(Fault::NotBoolean)
    }
}

pub fn infer_list_compared(
    cx: &Cx,
    env: &Env,
    agg: bool,
    t: Ty,
    es: &Exprs,
) -> (out: Result<Ty, Fault>)
    ensures
        out == list_compared(cx@, *env, agg, t, *es),
    decreases es, 0int,
{
    match es {
        Exprs::Nil => Ok(Ty { ty: Some(DataType::Boolean), nullable: t.nullable }),
        Exprs::Cons(e, rest) => {
            let u: Ty = infer_expr_type(cx, env, agg, e)?;
            let c: Ty = infer_compared_type(t, u)?;
            let more: Ty = infer_list_compared(cx, env, agg, t, rest)?;
            Ok(Ty { ty: Some(DataType::Boolean), nullable: c.nullable || more.nullable })
        },
    }
}

pub fn infer_whens_type(
    cx: &Cx,
    env: &Env,
    agg: bool,
    t: Ty,
    ws: &Whens,
) -> (out: Result<Ty, Fault>)
    ensures
        out == whens_type(cx@, *env, agg, t, *ws),
    decreases ws, 0int,
{
    match ws {
        Whens::Nil => Ok(t),
        Whens::Cons(c, x, rest) => {
            let _c: Ty = infer_condition_type(cx, env, agg, c)?;
            let u: Ty = infer_expr_type(cx, env, agg, x)?;
            match infer_common_type(t, u) {
                None => Err(Fault::TypesDiffer),
                Some(v) => infer_whens_type(cx, env, agg, v, rest),
            }
        },
    }
}

pub fn infer_switch_type(
    cx: &Cx,
    env: &Env,
    agg: bool,
    x: Ty,
    t: Ty,
    ws: &Whens,
) -> (out: Result<Ty, Fault>)
    ensures
        out == switch_type(cx@, *env, agg, x, t, *ws),
    decreases ws, 0int,
{
    match ws {
        Whens::Nil => Ok(t),
        Whens::Cons(c, y, rest) => {
            let v: Ty = infer_expr_type(cx, env, agg, c)?;
            let _c: Ty = infer_compared_type(x, v)?;
            let u: Ty = infer_expr_type(cx, env, agg, y)?;
            match infer_common_type(t, u) {
                None => Err(Fault::TypesDiffer),
                Some(w) => infer_switch_type(cx, env, agg, x, w, rest),
            }
        },
    }
}

pub fn infer_call_type(f: TextFn, t: Ty, u: Ty, v: Ty) -> (out: Result<Ty, Fault>)
    ensures
        out == call_type(f, t, u, v),
{
    match f {
        TextFn::Upper => infer_text_type(infer_textual(t), t.nullable),
        TextFn::Lower => infer_text_type(infer_textual(t), t.nullable),
        TextFn::Trim => infer_text_type(infer_textual(t), t.nullable),
        TextFn::Cast => infer_text_type(true, t.nullable),
        TextFn::Join => infer_text_type(
            infer_textual(t) || infer_textual(u),
            t.nullable || u.nullable,
        ),
        TextFn::Concat => infer_text_type(true, false),
        TextFn::Fill => infer_text_type(true, false),
        TextFn::Replace => infer_text_type(
            infer_textual(t) && infer_textual(u) && infer_textual(v),
            t.nullable || u.nullable || v.nullable,
        ),
        TextFn::Substring => infer_text_type(
            infer_textual(t) && infer_numeric(u) && infer_numeric(v),
            t.nullable || u.nullable || v.nullable,
        ),
        TextFn::Lpad => infer_text_type(
            infer_textual(t) && infer_numeric(u) && infer_textual(v),
            t.nullable || u.nullable || v.nullable,
        ),
        TextFn::Rpad => infer_text_type(
            infer_textual(t) && infer_numeric(u) && infer_textual(v),
            t.nullable || u.nullable || v.nullable,
        ),
        TextFn::Repeat => infer_text_type(
            infer_textual(t) && infer_numeric(u),
            t.nullable || u.nullable,
        ),
        TextFn::Length => if infer_textual(t) {
            Ok(Ty { ty: Some(DataType::Int), nullable: t.nullable })
        } else {
            Err(Fault::OperatorMissing)
        },
        TextFn::Position => if infer_textual(t) && infer_textual(u) {
            Ok(Ty { ty: Some(DataType::Int), nullable: t.nullable || u.nullable })
        } else {
            Err(Fault::OperatorMissing)
        },
    }
}

pub fn infer_text_type(ok: bool, nullable: bool) -> (out: Result<Ty, Fault>)
    ensures
        out == text_type(ok, nullable),
{
    if ok {
        Ok(Ty { ty: Some(DataType::Text), nullable })
    } else {
        Err(Fault::OperatorMissing)
    }
}

pub fn infer_coalesced_type(
    cx: &Cx,
    env: &Env,
    agg: bool,
    t: Ty,
    es: &Exprs,
) -> (out: Result<Ty, Fault>)
    ensures
        out == coalesced_type(cx@, *env, agg, t, *es),
    decreases es, 0int,
{
    match es {
        Exprs::Nil => Ok(t),
        Exprs::Cons(e, rest) => {
            let u: Ty = infer_expr_type(cx, env, agg, e)?;
            match infer_common_type(t, u) {
                None => Err(Fault::TypesDiffer),
                Some(v) => infer_coalesced_type(
                    cx,
                    env,
                    agg,
                    Ty { ty: v.ty, nullable: t.nullable && u.nullable },
                    rest,
                ),
            }
        },
    }
}

pub fn infer_all_types(cx: &Cx, env: &Env, es: &Exprs) -> (out: Result<Fields, Fault>)
    ensures
        out == all_types(cx@, *env, *es),
    decreases es, 0int,
{
    match es {
        Exprs::Nil => Ok(Fields::Nil),
        Exprs::Cons(e, rest) => {
            let t: Ty = infer_expr_type(cx, env, false, e)?;
            let more: Fields = infer_all_types(cx, env, rest)?;
            Ok(Fields::Cons(infer_output_field(symbols::ANONYMOUS, t), Box::new(more)))
        },
    }
}

pub fn infer_output_field(name: usize, t: Ty) -> (out: Field)
    ensures
        out == output_field(name, t),
{
    Field { qualifier: None, name, ty: t.ty, nullable: t.nullable, hidden: false }
}

pub fn infer_single_column(cx: &Cx, env: &Env, q: &Query) -> (out: Result<Ty, Fault>)
    ensures
        out == single_column(cx@, *env, *q),
    decreases q, 1int,
{
    let fs: Fields = infer_query_fields(cx, env, q)?;
    match fs {
        Fields::Cons(f, rest) => match *rest {
            Fields::Nil => Ok(Ty { ty: f.ty, nullable: true }),
            _ => Err(Fault::SubqueryWidth),
        },
        _ => Err(Fault::SubqueryWidth),
    }
}

pub fn infer_query_fields(cx: &Cx, env: &Env, q: &Query) -> (out: Result<Fields, Fault>)
    ensures
        out == query_fields(cx@, *env, *q),
    decreases q, 0int,
{
    match q {
        Query::Select(s) => infer_select_fields(cx, env, s),
        Query::Values(rows) => infer_values_fields(cx, env, rows),
        Query::Series(a, b) => {
            let t: Ty = infer_expr_type(cx, env, false, a)?;
            let u: Ty = infer_expr_type(cx, env, false, b)?;
            let v: Ty = infer_calculated_type(t, u)?;
            Ok(
                Fields::Cons(
                    infer_output_field(symbols::ANONYMOUS, Ty { ty: v.ty, nullable: false }),
                    Box::new(Fields::Nil),
                ),
            )
        },
        Query::Combined(_, _, a, b) => {
            let fs: Fields = infer_query_fields(cx, env, a)?;
            let gs: Fields = infer_query_fields(cx, env, b)?;
            infer_combined_fields(&fs, &gs)
        },
        Query::Sorted(inner, orders, _, _) => {
            let fs: Fields = infer_query_fields(cx, env, inner)?;
            let _: () = infer_output_orders_ok(&fs, orders)?;
            Ok(fs)
        },
        Query::With(n, cols, def, body) => {
            let fs: Fields = infer_query_fields(cx, env, def)?;
            let gs: Fields = fs.rename(cols);
            infer_query_fields(
                &Cx {
                    db: cx.db,
                    symbols: cx.symbols,
                    path: cx.path,
                    user: cx.user,
                    params: cx.params,
                    named: &Named::Cons(*n, &gs, &Vec::new(), cx.named),
                },
                env,
                body,
            )
        },
    }
}

pub fn infer_output_place(fs: &Fields, e: &Expr) -> (out: Option<Option<usize>>)
    ensures
        out == output_place(*fs, *e),
{
    match e {
        Expr::Lit(Datum::Int(k)) => if *k >= 1 {
            match fs.at((*k - 1) as usize) {
                Some(_) => Some(Some((*k - 1) as usize)),
                None => Some(None),
            }
        } else {
            Some(None)
        },
        Expr::Col(None, n) => match fs.locate(None, *n) {
            Found::One(i) => Some(Some(i)),
            _ => None,
        },
        _ => None,
    }
}

pub fn infer_ranked(e: &Expr) -> (out: bool)
    ensures
        out == ranked(*e),
{
    infer_has_window(e) && !infer_has_aggregate(e)
}

pub fn infer_orders_ok(
    cx: &Cx,
    env: &Env,
    fs: &Fields,
    agg: bool,
    os: &Orders,
) -> (out: Result<(), Fault>)
    ensures
        out == orders_ok(cx@, *env, *fs, agg, *os),
    decreases os, 0int,
{
    match os {
        Orders::Nil => Ok(()),
        Orders::Cons(e, _, _, rest) => match infer_output_place(fs, e) {
            Some(None) => Err(Fault::OrderPosition),
            Some(Some(_)) => infer_orders_ok(cx, env, fs, agg, rest),
            None => {
                let _t: Ty = infer_expr_type(cx, env, agg || infer_ranked(e), e)?;
                infer_orders_ok(cx, env, fs, agg, rest)
            },
        },
    }
}

pub fn infer_output_orders_ok(fs: &Fields, os: &Orders) -> (out: Result<(), Fault>)
    ensures
        out == output_orders_ok(*fs, *os),
    decreases os,
{
    match os {
        Orders::Nil => Ok(()),
        Orders::Cons(e, _, _, rest) => match infer_output_place(fs, e) {
            Some(Some(_)) => infer_output_orders_ok(fs, rest),
            _ => Err(Fault::OrderPosition),
        },
    }
}

pub fn infer_values_fields(cx: &Cx, env: &Env, rows: &ExprRows) -> (out: Result<Fields, Fault>)
    ensures
        out == values_fields(cx@, *env, *rows),
    decreases rows, 0int,
{
    match rows {
        ExprRows::Nil => Ok(Fields::Nil),
        ExprRows::Cons(row, rest) => {
            let fs: Fields = infer_all_types(cx, env, row)?;
            match &**rest {
                ExprRows::Nil => Ok(fs),
                _ => {
                    let gs: Fields = infer_values_fields(cx, env, rest)?;
                    match infer_combined_fields(&fs, &gs) {
                        Err(Fault::SetOperationWidth) => Err(Fault::ValuesWidth),
                        Err(f) => Err(f),
                        Ok(hs) => Ok(hs),
                    }
                },
            }
        },
    }
}

pub fn infer_select_fields(cx: &Cx, env: &Env, s: &Select) -> (out: Result<Fields, Fault>)
    ensures
        out == select_fields(cx@, *env, *s),
    decreases s, 2int,
{
    let src: Fields = infer_source_fields(cx, env, &s.source)?;
    infer_block_fields(cx, &Env::Frame(&src, &Tuple::Nil, env), &src, s)
}

pub fn infer_block_fields(
    cx: &Cx,
    env: &Env,
    src: &Fields,
    s: &Select,
) -> (out: Result<Fields, Fault>)
    ensures
        out == block_fields(cx@, *env, *src, *s),
    decreases s, 1int,
{
    if infer_windows_misplaced(s) {
        Err(Fault::MisplacedWindow)
    } else {
        infer_placed_block_fields(cx, env, src, s)
    }
}

pub fn infer_placed_block_fields(
    cx: &Cx,
    env: &Env,
    src: &Fields,
    s: &Select,
) -> (out: Result<Fields, Fault>)
    ensures
        out == placed_block_fields(cx@, *env, *src, *s),
    decreases s, 0int,
{
    let _f: Ty = infer_condition_type(cx, env, false, &s.filter)?;
    let _g: Fields = infer_all_types(cx, env, &s.group)?;
    let _h: Ty = infer_condition_type(cx, env, true, &s.having)?;
    let _d: () = infer_distinct_ok(cx, env, &s.distinct)?;
    let fs: Fields = infer_items_fields(cx, env, src, &s.items)?;
    let _o: () = infer_orders_ok(cx, env, &fs, infer_is_grouped(s), &s.orders)?;
    if infer_is_grouped(s) {
        let _: () = infer_items_grouped_ok(src, &s.group, &s.items)?;
        let _: () = infer_grouped_ok(src, &s.group, &s.having)?;
        Ok(fs)
    } else {
        Ok(fs)
    }
}

pub fn infer_distinct_ok(cx: &Cx, env: &Env, d: &Distinct) -> (out: Result<(), Fault>)
    ensures
        out == distinct_ok(cx@, *env, *d),
    decreases d, 0int,
{
    match d {
        Distinct::On(es) => {
            let _fs: Fields = infer_all_types(cx, env, es)?;
            Ok(())
        },
        _ => Ok(()),
    }
}

pub fn infer_items_fields(
    cx: &Cx,
    env: &Env,
    src: &Fields,
    items: &Items,
) -> (out: Result<Fields, Fault>)
    ensures
        out == items_fields(cx@, *env, *src, *items),
    decreases items, 0int,
{
    match items {
        Items::Nil => Ok(Fields::Nil),
        Items::Cons(item, rest) => {
            let first: Fields = infer_item_fields(cx, env, src, item)?;
            let more: Fields = infer_items_fields(cx, env, src, rest)?;
            Ok(first.append(&more))
        },
    }
}

pub fn infer_item_fields(
    cx: &Cx,
    env: &Env,
    src: &Fields,
    item: &Item,
) -> (out: Result<Fields, Fault>)
    ensures
        out == item_fields(cx@, *env, *src, *item),
    decreases item, 0int,
{
    match item {
        Item::Star => Ok(src.only_visible()),
        Item::TableStar(q) => match src.only_of(*q) {
            Fields::Nil => Err(Fault::UndefinedTable { schema: None, name: *q }),
            fs => Ok(fs),
        },
        Item::Expr(e, alias) => {
            let t: Ty = infer_expr_type(cx, env, true, e)?;
            let name: usize = match alias {
                Some(n) => *n,
                None => infer_item_name(e),
            };
            Ok(Fields::Cons(infer_output_field(name, t), Box::new(Fields::Nil)))
        },
    }
}

pub fn infer_source_fields(cx: &Cx, env: &Env, src: &Source) -> (out: Result<Fields, Fault>)
    ensures
        out == source_fields(cx@, *env, *src),
    decreases src, 0int,
{
    match src {
        Source::Nothing => Ok(Fields::Nil),
        Source::Table(n, alias) => {
            let q: usize = match alias {
                Some(a) => *a,
                None => n.name,
            };
            match find_query_named(cx, *n) {
                Some(fs) => Ok(fs.under(q)),
                None => match cx.db.resolve(cx.path, *n) {
                    None => Err(Fault::UndefinedTable { schema: n.schema, name: n.name }),
                    Some(i) => if cx.db.allows(cx.user, i, catalog::to_read()) {
                        Ok(Fields::of_table(&cx.db.tables[i].columns, q))
                    } else {
                        Err(Fault::Denied { name: n.name })
                    },
                },
            }
        },
        Source::Sub(q, alias, cols) => {
            let fs: Fields = infer_query_fields(cx, env, q)?;
            Ok(fs.rename(cols).under(*alias))
        },
        Source::Join(kind, a, b, on) => {
            let l: Fields = infer_source_fields(cx, env, a)?;
            let r: Fields = infer_source_fields(cx, env, b)?;
            let _p: Pairs = infer_join_pairs(&l, &r, on)?;
            let fs: Fields = infer_join_fields(*kind, &l, &r, on);
            let _: () = infer_join_ok(cx, &Env::Frame(&fs, &Tuple::Nil, env), on)?;
            Ok(fs)
        },
    }
}

pub fn infer_join_ok(cx: &Cx, env: &Env, on: &JoinOn) -> (out: Result<(), Fault>)
    ensures
        out == join_ok(cx@, *env, *on),
    decreases on, 0int,
{
    match on {
        JoinOn::On(e) => {
            let _t: Ty = infer_condition_type(cx, env, false, e)?;
            Ok(())
        },
        _ => Ok(()),
    }
}

} // verus!
