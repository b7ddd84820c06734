//! The grammar of statements.
//!
//! Each function `..._at` says which tree stands at a place of a token sequence
//! and where the tokens go on behind it, or why none stands there. The function
//! `parse_...` beside it computes that.

use vstd::prelude::*;
use crate::ast::Action;
use crate::ast::Actions;
use crate::ast::AggFn;
use crate::ast::Assigns;
use crate::ast::Block;
use crate::ast::Branches;
use crate::ast::Column;
use crate::ast::Columns;
use crate::ast::Combine;
use crate::ast::Conflict;
use crate::ast::Def;
use crate::ast::Direction;
use crate::ast::Distinct;
use crate::ast::Expr;
use crate::ast::ExprRows;
use crate::ast::Exprs;
use crate::ast::Feed;
use crate::ast::Filler;
use crate::ast::Grantee;
use crate::ast::Idents;
use crate::ast::IsolationLevel;
use crate::ast::Item;
use crate::ast::Items;
use crate::ast::JoinKind;
use crate::ast::JoinOn;
use crate::ast::Limit;
use crate::ast::Name;
use crate::ast::Orders;
use crate::ast::Over;
use crate::ast::Privileges;
use crate::ast::Query;
use crate::ast::RoleOptions;
use crate::ast::Scope;
use crate::ast::Select;
use crate::ast::Setting;
use crate::ast::Signature;
use crate::ast::Source;
use crate::ast::Stmt;
use crate::ast::Stmts;
use crate::ast::TableDefs;
use crate::ast::Target;
use crate::ast::TextFn;
use crate::ast::TxnModes;
use crate::ast::Variables;
use crate::ast::Whens;
use crate::ast::WindowFn;
use crate::datum::Arith;
use crate::datum::Compare;
use crate::datum::DataType;
use crate::datum::Datum;
use crate::fault::Fault;
use crate::fault::Tag;
use crate::keyword;
use crate::keyword::Kw;
use crate::lexer::Punct;
use crate::lexer::Tok;
use crate::symbols;

verus! {

/// How deeply expressions and queries may be nested in each other.
pub const MAX_DEPTH: u32 = 64;

/// The token at a place; behind the last one there are only ends.
pub open spec fn tok_at(ts: Seq<Tok>, p: usize) -> Tok {
    if p < ts.len() && p < usize::MAX {
        ts[p as int]
    } else {
        Tok::End
    }
}

pub open spec fn is_word(t: Tok, k: Kw) -> bool {
    match t {
        Tok::Word(w, _) => w == k,
        _ => false,
    }
}

/// Whether `q` is a place behind `p` and not behind the end.
pub open spec fn beyond(ts: Seq<Tok>, p: usize, q: usize) -> bool {
    p < q && q <= ts.len()
}

fn peek(ts: &Vec<Tok>, p: usize) -> (r: Tok)
    ensures
        r == tok_at(ts@, p),
{
    if p < ts.len() {
        ts[p]
    } else {
        Tok::End
    }
}

fn word_is(t: Tok, k: Kw) -> (r: bool)
    ensures
        r == is_word(t, k),
{
    match t {
        Tok::Word(w, _) => w == k,
        _ => false,
    }
}

fn goes_on(ts: &Vec<Tok>, p: usize, q: usize) -> (r: bool)
    ensures
        r == beyond(ts@, p, q),
{
    p < q && q <= ts.len()
}

/// An operator between or behind operands.
#[derive(Clone, Copy, Debug)]
pub enum Operator {
    Nothing,
    Or,
    And,
    Compare(Compare),
    Join,
    Plus(Arith),
    Times(Arith),
    IsNull(bool),
    Between(bool),
    In(bool),
    Like(bool),
}

/// Whether a select list has a value that is drawn from a sequence.
pub open spec fn draws(items: Items) -> bool
    decreases items,
{
    match items {
        Items::Nil => false,
        Items::Cons(Item::Expr(e, _), rest) => *e is Next || draws(*rest),
        Items::Cons(_, rest) => draws(*rest),
    }
}

fn has_draw(items: &Items) -> (r: bool)
    ensures
        r == draws(*items),
    decreases items,
{
    match items {
        Items::Nil => false,
        Items::Cons(Item::Expr(e, _), rest) => matches!(&**e, Expr::Next(_, _)) || has_draw(rest),
        Items::Cons(_, rest) => has_draw(rest),
    }
}

/// Whether a query is a select list and nothing else, with a value that is drawn from a
/// sequence.
pub open spec fn only_draws(s: Select) -> bool {
    s.distinct is No && s.source is Nothing && s.filter == Expr::Lit(Datum::Bool(true))
        && s.group is Nil && !s.has_having && s.orders is Nil && draws(s.items)
}

/// A query as a statement.
pub open spec fn drawing(q: Query) -> Stmt {
    match q {
        Query::Select(s) => if only_draws(*s) {
            Stmt::Draw(Box::new(s.items))
        } else {
            Stmt::Query(Box::new(q))
        },
        _ => Stmt::Query(Box::new(q)),
    }
}

fn make_drawing(q: Query) -> (r: Stmt)
    ensures
        r == drawing(q),
{
    match q {
        Query::Select(s) => {
            let alone: bool = matches!(s.distinct, Distinct::No) && matches!(s.source, Source::Nothing)
                && matches!(s.filter, Expr::Lit(Datum::Bool(true))) && matches!(s.group, Exprs::Nil)
                && !s.has_having && matches!(s.orders, Orders::Nil) && has_draw(&s.items);
            if alone {
                Stmt::Draw(Box::new(s.items))
            } else {
                Stmt::Query(Box::new(Query::Select(s)))
            }
        },
        other => Stmt::Query(Box::new(other)),
    }
}

/// How many expressions there are, as far as it can be said.
pub open spec fn count_of(es: Exprs) -> i32
    decreases es,
{
    match es {
        Exprs::Nil => 0,
        Exprs::Cons(_, rest) => if count_of(*rest) < i32::MAX {
            (count_of(*rest) + 1) as i32
        } else {
            i32::MAX
        },
    }
}

fn count(es: &Exprs) -> (r: i32)
    ensures
        r == count_of(*es),
    decreases es,
{
    match es {
        Exprs::Nil => 0,
        Exprs::Cons(_, rest) => {
            let n: i32 = count(rest);
            if n < i32::MAX {
                n + 1
            } else {
                i32::MAX
            }
        },
    }
}

/// The text that a format becomes when its percent signs are filled in, the first of
/// as many as there are expressions from the end by the first expression.
pub open spec fn filled_format(format: Expr, es: Exprs) -> Expr
    decreases es,
{
    match es {
        Exprs::Nil => format,
        Exprs::Cons(e, rest) => filled_format(
            Expr::Call(
                TextFn::Fill,
                symbols::ANONYMOUS,
                Box::new(format),
                e,
                Box::new(Expr::Lit(Datum::Int(count_of(es)))),
            ),
            *rest,
        ),
    }
}

fn fill_format(format: Expr, es: Exprs) -> (r: Expr)
    ensures
        r == filled_format(format, es),
    decreases es,
{
    let n: i32 = count(&es);
    match es {
        Exprs::Nil => format,
        Exprs::Cons(e, rest) => fill_format(
            Expr::Call(
                TextFn::Fill,
                symbols::ANONYMOUS,
                Box::new(format),
                e,
                Box::new(Expr::Lit(Datum::Int(n))),
            ),
            *rest,
        ),
    }
}

/// A query with its order and limits. The order of a query block goes into the
/// block.
pub open spec fn with_order(
    body: Query,
    orders: Orders,
    ordered: bool,
    cut: bool,
    limit: Option<u64>,
    offset: u64,
) -> Query {
    if !ordered && !cut {
        body
    } else {
        match body {
            Query::Select(s) => if s.orders is Nil {
                let block = Query::Select(Box::new(Select { orders, ..*s }));
                if cut {
                    Query::Sorted(Box::new(block), Box::new(Orders::Nil), limit, offset)
                } else {
                    block
                }
            } else {
                Query::Sorted(Box::new(body), Box::new(orders), limit, offset)
            },
            _ => Query::Sorted(Box::new(body), Box::new(orders), limit, offset),
        }
    }
}

fn add_order(
    body: Query,
    orders: Orders,
    ordered: bool,
    cut: bool,
    limit: Option<u64>,
    offset: u64,
) -> (r: Query)
    ensures
        r == with_order(body, orders, ordered, cut, limit, offset),
{
    if !ordered && !cut {
        return body;
    }
    match body {
        Query::Select(s) => {
            let block: Select = *s;
            if matches!(block.orders, Orders::Nil) {
                let sorted: Query = Query::Select(
                    Box::new(
                        Select {
                            distinct: block.distinct,
                            items: block.items,
                            source: block.source,
                            filter: block.filter,
                            group: block.group,
                            has_having: block.has_having,
                            having: block.having,
                            orders,
                        },
                    ),
                );
                if cut {
                    Query::Sorted(Box::new(sorted), Box::new(Orders::Nil), limit, offset)
                } else {
                    sorted
                }
            } else {
                Query::Sorted(
                    Box::new(Query::Select(Box::new(block))),
                    Box::new(orders),
                    limit,
                    offset,
                )
            }
        },
        other => Query::Sorted(Box::new(other), Box::new(orders), limit, offset),
    }
}

/// The mark `m`.
pub open spec fn mark_at(ts: Seq<Tok>, p: usize, m: Punct) -> Result<((), usize), Fault>
{
    if tok_at(ts, p) == Tok::Mark(m) {
        Ok(((), (p + 1) as usize))
    } else {
        Err(Fault::Syntax { at: p })
    }
}

/// The word `k`.
pub open spec fn word_at(ts: Seq<Tok>, p: usize, k: Kw) -> Result<((), usize), Fault>
{
    if is_word(tok_at(ts, p), k) {
        Ok(((), (p + 1) as usize))
    } else {
        Err(Fault::Syntax { at: p })
    }
}

/// A name.
pub open spec fn ident_at(ts: Seq<Tok>, p: usize) -> Result<(usize, usize), Fault>
{
    match tok_at(ts, p) {
        Tok::Word(k, n) => if keyword::reserved(k) {
            Err(Fault::Syntax { at: p })
        } else {
            Ok((n, (p + 1) as usize))
        },
        _ => Err(Fault::Syntax { at: p }),
    }
}

/// A second name, if one is given, with or without `AS` before it.
pub open spec fn alias_at(ts: Seq<Tok>, p: usize) -> Result<(Option<usize>, usize), Fault>
{
    match tok_at(ts, p) {
        Tok::Word(k, n) => if k == Kw::As {
            match tok_at(ts, (p + 1) as usize) {
                Tok::Word(_, m) => Ok((Some(m), (p + 2) as usize)),
                _ => Err(Fault::Syntax { at: p }),
            }
        } else if keyword::reserved(k) {
            Ok((None, p))
        } else {
            Ok((Some(n), (p + 1) as usize))
        },
        _ => Ok((None, p)),
    }
}

/// The name of a relation, with or without a schema.
pub open spec fn name_at(ts: Seq<Tok>, p: usize) -> Result<(Name, usize), Fault>
{
    match ident_at(ts, p) {
        Err(f) => Err(f),
        Ok((first, q)) => {
            if tok_at(ts, q) == Tok::Mark(Punct::Dot) {
                match ident_at(ts, (q + 1) as usize) {
                    Err(f) => Err(f),
                    Ok((second, r)) => {
                        Ok((Name { schema: Some(first), name: second }, r))
                    },
                }
            } else {
                Ok((Name { schema: None, name: first }, q))
            }
        },
    }
}

/// Names with commas between them.
pub open spec fn idents_at(ts: Seq<Tok>, p: usize) -> Result<(Idents, usize), Fault>
    decreases ts.len() - p,
{
    match ident_at(ts, p) {
        Err(f) => Err(f),
        Ok((n, q)) => {
            if tok_at(ts, q) == Tok::Mark(Punct::Comma) && beyond(ts, p, (q + 1) as usize) {
                match idents_at(ts, (q + 1) as usize) {
                    Err(f) => Err(f),
                    Ok((rest, r)) => {
                        Ok((Idents::Cons(n, Box::new(rest)), r))
                    },
                }
            } else {
                Ok((Idents::Cons(n, Box::new(Idents::Nil)), q))
            }
        },
    }
}

/// Names with commas between them, in parentheses.
pub open spec fn ident_list_at(ts: Seq<Tok>, p: usize) -> Result<(Idents, usize), Fault>
{
    match mark_at(ts, p, Punct::LParen) {
        Err(f) => Err(f),
        Ok((_, q)) => {
            match idents_at(ts, q) {
                Err(f) => Err(f),
                Ok((names, r)) => {
                    match mark_at(ts, r, Punct::RParen) {
                        Err(f) => Err(f),
                        Ok((_, s)) => {
                            Ok((names, s))
                        },
                    }
                },
            }
        },
    }
}

/// A type.
pub open spec fn data_type_at(ts: Seq<Tok>, p: usize) -> Result<(DataType, usize), Fault>
{
    match tok_at(ts, p) {
        Tok::Word(Kw::Int, _) => Ok((DataType::Int, (p + 1) as usize)),
        Tok::Word(Kw::Integer, _) => Ok((DataType::Int, (p + 1) as usize)),
        Tok::Word(Kw::Int4, _) => Ok((DataType::Int, (p + 1) as usize)),
        Tok::Word(Kw::Bigint, _) => Ok((DataType::BigInt, (p + 1) as usize)),
        Tok::Word(Kw::Int8, _) => Ok((DataType::BigInt, (p + 1) as usize)),
        Tok::Word(Kw::Boolean, _) => Ok((DataType::Boolean, (p + 1) as usize)),
        Tok::Word(Kw::Bool, _) => Ok((DataType::Boolean, (p + 1) as usize)),
        Tok::Word(Kw::Text, _) => Ok((DataType::Text, (p + 1) as usize)),
        Tok::Word(Kw::Varchar, _) => Ok((DataType::Text, (p + 1) as usize)),
        _ => Err(Fault::Syntax { at: p }),
    }
}

/// The type of a column.
pub open spec fn column_type_at(ts: Seq<Tok>, p: usize) -> Result<(
    (DataType, Option<Limit>),
    usize,
), Fault>
{
    match tok_at(ts, p) {
        Tok::Word(Kw::Varchar, _) => {
            match limit_at(ts, false, (p + 1) as usize) {
                Err(f) => Err(f),
                Ok((limit, q)) => {
                    Ok(((DataType::Text, limit), q))
                },
            }
        },
        Tok::Word(Kw::Char, _) => {
            match limit_at(ts, true, (p + 1) as usize) {
                Err(f) => Err(f),
                Ok((limit, q)) => {
                    Ok(((DataType::Text, limit), q))
                },
            }
        },
        Tok::Word(Kw::Character, _) => if is_word(tok_at(ts, (p + 1) as usize), Kw::Varying) {
            match limit_at(ts, false, (p + 2) as usize) {
                Err(f) => Err(f),
                Ok((limit, q)) => {
                    Ok(((DataType::Text, limit), q))
                },
            }
        } else {
            match limit_at(ts, true, (p + 1) as usize) {
                Err(f) => Err(f),
                Ok((limit, q)) => {
                    Ok(((DataType::Text, limit), q))
                },
            }
        },
        _ => {
            match data_type_at(ts, p) {
                Err(f) => Err(f),
                Ok((ty, q)) => {
                    Ok(((ty, None), q))
                },
            }
        },
    }
}

/// How many characters texts may have: one, if nothing is said of a fixed length.
pub open spec fn limit_at(
    ts: Seq<Tok>,
    fixed: bool,
    p: usize,
) -> Result<(Option<Limit>, usize), Fault>
{
    if tok_at(ts, p) == Tok::Mark(Punct::LParen) {
        match number_at(ts, (p + 1) as usize) {
            Err(f) => Err(f),
            Ok((length, q)) => {
                match mark_at(ts, q, Punct::RParen) {
                    Err(f) => Err(f),
                    Ok((_, r)) => {
                        Ok((Some(Limit { length, fixed }), r))
                    },
                }
            },
        }
    } else if fixed {
        Ok((Some(Limit { length: 1, fixed }), p))
    } else {
        Ok((None, p))
    }
}

/// A number without a sign.
pub open spec fn number_at(ts: Seq<Tok>, p: usize) -> Result<(u64, usize), Fault>
{
    match tok_at(ts, p) {
        Tok::Num(n) => Ok((n, (p + 1) as usize)),
        _ => Err(Fault::Syntax { at: p }),
    }
}

/// A constant.
pub open spec fn literal_at(ts: Seq<Tok>, p: usize) -> Result<(Datum, usize), Fault>
{
    match tok_at(ts, p) {
        Tok::Num(n) => if n <= 2147483647 {
            Ok((Datum::Int(n as i32), (p + 1) as usize))
        } else if n <= 9223372036854775807 {
            Ok((Datum::Big(n as i64), (p + 1) as usize))
        } else {
            Err(Fault::NumberTooLarge)
        },
        Tok::Text(s) => Ok((Datum::Text(s), (p + 1) as usize)),
        Tok::Word(Kw::Null, _) => Ok((Datum::Null, (p + 1) as usize)),
        Tok::Word(Kw::True, _) => Ok((Datum::Bool(true), (p + 1) as usize)),
        Tok::Word(Kw::False, _) => Ok((Datum::Bool(false), (p + 1) as usize)),
        _ => Err(Fault::Syntax { at: p }),
    }
}

/// A query: named queries that it refers to, then blocks, combined by set
/// operations, with an order and limits for the whole.
pub open spec fn query_at(ts: Seq<Tok>, depth: u32, p: usize) -> Result<(Query, usize), Fault>
    decreases depth, 90int, 0int,
{
    if is_word(tok_at(ts, p), Kw::With) {
        if depth == 0 {
            Err(Fault::TooDeep)
        } else {
            with_at(ts, ((depth - 1) as u32), (p + 1) as usize)
        }
    } else {
        plain_query_at(ts, depth, p)
    }
}

/// A named query and the query that refers to it.
pub open spec fn with_at(ts: Seq<Tok>, depth: u32, p: usize) -> Result<(Query, usize), Fault>
    decreases depth, 89int, ts.len() - p,
{
    match ident_at(ts, p) {
        Err(f) => Err(f),
        Ok((n, q)) => {
            match column_aliases_at(ts, q) {
                Err(f) => Err(f),
                Ok((cols, r)) => {
                    match word_at(ts, r, Kw::As) {
                        Err(f) => Err(f),
                        Ok((_, s)) => {
                            match mark_at(ts, s, Punct::LParen) {
                                Err(f) => Err(f),
                                Ok((_, t)) => {
                                    if depth == 0 {
                                        Err(Fault::TooDeep)
                                    } else {
                                        match query_at(ts, ((depth - 1) as u32), t) {
                                            Err(f) => Err(f),
                                            Ok((def, u)) => {
                                                match mark_at(ts, u, Punct::RParen) {
                                                    Err(f) => Err(f),
                                                    Ok((_, v)) => {
                                                        if tok_at(ts, v) == Tok::Mark(Punct::Comma)
                                                            && beyond(ts, p, (v + 1) as usize)
                                                        {
                                                            match with_at(
                                                                ts,
                                                                depth,
                                                                (v + 1) as usize,
                                                            ) {
                                                                Err(f) => Err(f),
                                                                Ok((body, x)) => {
                                                                    Ok(
                                                                        (
                                                                            Query::With(
                                                                                n,
                                                                                Box::new(cols),
                                                                                Box::new(def),
                                                                                Box::new(body),
                                                                            ),
                                                                            x,
                                                                        ),
                                                                    )
                                                                },
                                                            }
                                                        } else {
                                                            match plain_query_at(ts, depth, v) {
                                                                Err(f) => Err(f),
                                                                Ok((body, x)) => {
                                                                    Ok(
                                                                        (
                                                                            Query::With(
                                                                                n,
                                                                                Box::new(cols),
                                                                                Box::new(def),
                                                                                Box::new(body),
                                                                            ),
                                                                            x,
                                                                        ),
                                                                    )
                                                                },
                                                            }
                                                        }
                                                    },
                                                }
                                            },
                                        }
                                    }
                                },
                            }
                        },
                    }
                },
            }
        },
    }
}

/// Blocks, combined by set operations, with an order and limits for the whole.
pub open spec fn plain_query_at(ts: Seq<Tok>, depth: u32, p: usize) -> Result<(Query, usize), Fault>
    decreases depth, 88int, 0int,
{
    match intersections_at(ts, depth, p) {
        Err(f) => Err(f),
        Ok((first, q)) => {
            match unions_at(ts, depth, first, q) {
                Err(f) => Err(f),
                Ok((body, r)) => {
                    match order_clause_at(ts, depth, r) {
                        Err(f) => Err(f),
                        Ok((orders, s)) => {
                            match limit_clause_at(ts, s) {
                                Err(f) => Err(f),
                                Ok((limit, t)) => {
                                    match offset_clause_at(ts, t) {
                                        Err(f) => Err(f),
                                        Ok((offset, u)) => {
                                            Ok(
                                                (
                                                    with_order(
                                                        body,
                                                        orders.0,
                                                        orders.1,
                                                        limit.0 || offset.0,
                                                        limit.1,
                                                        offset.1,
                                                    ),
                                                    u,
                                                ),
                                            )
                                        },
                                    }
                                },
                            }
                        },
                    }
                },
            }
        },
    }
}

/// The sort keys of a query, and whether there are any.
pub open spec fn order_clause_at(
    ts: Seq<Tok>,
    depth: u32,
    p: usize,
) -> Result<((Orders, bool), usize), Fault>
    decreases depth, 58int, 0int,
{
    if is_word(tok_at(ts, p), Kw::Order) {
        match word_at(ts, (p + 1) as usize, Kw::By) {
            Err(f) => Err(f),
            Ok((_, q)) => {
                match orders_at(ts, depth, q) {
                    Err(f) => Err(f),
                    Ok((orders, r)) => {
                        Ok(((orders, true), r))
                    },
                }
            },
        }
    } else {
        Ok(((Orders::Nil, false), p))
    }
}

/// The greatest number of rows of a query, if one is given.
pub open spec fn limit_clause_at(ts: Seq<Tok>, p: usize) -> Result<((bool, Option<u64>), usize), Fault>
{
    if is_word(tok_at(ts, p), Kw::Limit) {
        if is_word(tok_at(ts, (p + 1) as usize), Kw::All) {
            Ok(((true, None), (p + 2) as usize))
        } else {
            match number_at(ts, (p + 1) as usize) {
                Err(f) => Err(f),
                Ok((n, q)) => {
                    Ok(((true, Some(n)), q))
                },
            }
        }
    } else {
        Ok(((false, None), p))
    }
}

/// How many rows of a query are passed over.
pub open spec fn offset_clause_at(ts: Seq<Tok>, p: usize) -> Result<((bool, u64), usize), Fault>
{
    if is_word(tok_at(ts, p), Kw::Offset) {
        match number_at(ts, (p + 1) as usize) {
            Err(f) => Err(f),
            Ok((n, q)) => {
                Ok(((true, n), q))
            },
        }
    } else {
        Ok(((false, 0), p))
    }
}

/// Sort keys with commas between them.
pub open spec fn orders_at(ts: Seq<Tok>, depth: u32, p: usize) -> Result<(Orders, usize), Fault>
    decreases depth, 55int, ts.len() - p,
{
    match prec_at(ts, depth, 1, p) {
        Err(f) => Err(f),
        Ok((e, q)) => {
            match direction_at(ts, q) {
                Err(f) => Err(f),
                Ok((desc, r)) => {
                    match nulls_at(ts, desc, r) {
                        Err(f) => Err(f),
                        Ok((first, s)) => {
                            if tok_at(ts, s) == Tok::Mark(Punct::Comma)
                                && beyond(ts, p, (s + 1) as usize)
                            {
                                match orders_at(ts, depth, (s + 1) as usize) {
                                    Err(f) => Err(f),
                                    Ok((rest, t)) => {
                                        Ok(
                                            (
                                                Orders::Cons(
                                                    Box::new(e),
                                                    desc,
                                                    first,
                                                    Box::new(rest),
                                                ),
                                                t,
                                            ),
                                        )
                                    },
                                }
                            } else {
                                Ok(
                                    (
                                        Orders::Cons(
                                            Box::new(e),
                                            desc,
                                            first,
                                            Box::new(Orders::Nil),
                                        ),
                                        s,
                                    ),
                                )
                            }
                        },
                    }
                },
            }
        },
    }
}

/// Whether a sort key is descending.
pub open spec fn direction_at(ts: Seq<Tok>, p: usize) -> Result<(bool, usize), Fault>
{
    if is_word(tok_at(ts, p), Kw::Desc) {
        Ok((true, (p + 1) as usize))
    } else if is_word(tok_at(ts, p), Kw::Asc) {
        Ok((false, (p + 1) as usize))
    } else {
        Ok((false, p))
    }
}

/// Whether nulls come first; if nothing is said, they do in a descending order.
pub open spec fn nulls_at(ts: Seq<Tok>, desc: bool, p: usize) -> Result<(bool, usize), Fault>
{
    if is_word(tok_at(ts, p), Kw::Nulls) {
        if is_word(tok_at(ts, (p + 1) as usize), Kw::First) {
            Ok((true, (p + 2) as usize))
        } else {
            match word_at(ts, (p + 1) as usize, Kw::Last) {
                Err(f) => Err(f),
                Ok((_, q)) => {
                    Ok((false, q))
                },
            }
        }
    } else {
        Ok((desc, p))
    }
}

/// The unions and differences that follow the query `first`.
pub open spec fn unions_at(
    ts: Seq<Tok>,
    depth: u32,
    first: Query,
    p: usize,
) -> Result<(Query, usize), Fault>
    decreases depth, 80int, ts.len() - p,
{
    if is_word(tok_at(ts, p), Kw::Union) || is_word(tok_at(ts, p), Kw::Except) {
        let kind: Combine = if is_word(tok_at(ts, p), Kw::Union) {
            Combine::Union
        } else {
            Combine::Except
        };
        match all_flag_at(ts, (p + 1) as usize) {
            Err(f) => Err(f),
            Ok((all, q)) => {
                match intersections_at(ts, depth, q) {
                    Err(f) => Err(f),
                    Ok((second, r)) => {
                        if beyond(ts, p, r) {
                            unions_at(
                                ts,
                                depth,
                                Query::Combined(kind, all, Box::new(first), Box::new(second)),
                                r,
                            )
                        } else {
                            Err(Fault::Syntax { at: p })
                        }
                    },
                }
            },
        }
    } else {
        Ok((first, p))
    }
}

/// Whether a set operation keeps duplicates.
pub open spec fn all_flag_at(ts: Seq<Tok>, p: usize) -> Result<(bool, usize), Fault>
{
    if is_word(tok_at(ts, p), Kw::All) {
        Ok((true, (p + 1) as usize))
    } else if is_word(tok_at(ts, p), Kw::Distinct) {
        Ok((false, (p + 1) as usize))
    } else {
        Ok((false, p))
    }
}

/// Query blocks combined by intersections, which bind before the other set
/// operations.
pub open spec fn intersections_at(
    ts: Seq<Tok>,
    depth: u32,
    p: usize,
) -> Result<(Query, usize), Fault>
    decreases depth, 78int, 0int,
{
    match block_at(ts, depth, p) {
        Err(f) => Err(f),
        Ok((first, q)) => {
            more_intersections_at(ts, depth, first, q)
        },
    }
}

/// The intersections that follow the query `first`.
pub open spec fn more_intersections_at(
    ts: Seq<Tok>,
    depth: u32,
    first: Query,
    p: usize,
) -> Result<(Query, usize), Fault>
    decreases depth, 77int, ts.len() - p,
{
    if is_word(tok_at(ts, p), Kw::Intersect) {
        match all_flag_at(ts, (p + 1) as usize) {
            Err(f) => Err(f),
            Ok((all, q)) => {
                match block_at(ts, depth, q) {
                    Err(f) => Err(f),
                    Ok((second, r)) => {
                        if beyond(ts, p, r) {
                            more_intersections_at(
                                ts,
                                depth,
                                Query::Combined(
                                    Combine::Intersect,
                                    all,
                                    Box::new(first),
                                    Box::new(second),
                                ),
                                r,
                            )
                        } else {
                            Err(Fault::Syntax { at: p })
                        }
                    },
                }
            },
        }
    } else {
        Ok((first, p))
    }
}

/// One query block, or a query in parentheses.
pub open spec fn block_at(ts: Seq<Tok>, depth: u32, p: usize) -> Result<(Query, usize), Fault>
    decreases depth, 70int, 0int,
{
    match tok_at(ts, p) {
        Tok::Word(Kw::Select, _) => {
            match select_at(ts, depth, (p + 1) as usize) {
                Err(f) => Err(f),
                Ok((s, q)) => {
                    Ok((Query::Select(Box::new(s)), q))
                },
            }
        },
        Tok::Word(Kw::Values, _) => {
            match expr_rows_at(ts, depth, (p + 1) as usize) {
                Err(f) => Err(f),
                Ok((rows, q)) => {
                    Ok((Query::Values(Box::new(rows)), q))
                },
            }
        },
        Tok::Mark(Punct::LParen) => if depth == 0 {
            Err(Fault::TooDeep)
        } else {
            match query_at(ts, ((depth - 1) as u32), (p + 1) as usize) {
                Err(f) => Err(f),
                Ok((inner, q)) => {
                    match mark_at(ts, q, Punct::RParen) {
                        Err(f) => Err(f),
                        Ok((_, r)) => {
                            Ok((inner, r))
                        },
                    }
                },
            }
        },
        _ => Err(Fault::Syntax { at: p }),
    }
}

/// Rows of expressions in parentheses, with commas between them.
pub open spec fn expr_rows_at(
    ts: Seq<Tok>,
    depth: u32,
    p: usize,
) -> Result<(ExprRows, usize), Fault>
    decreases depth, 60int, ts.len() - p,
{
    match mark_at(ts, p, Punct::LParen) {
        Err(f) => Err(f),
        Ok((_, q)) => {
            match exprs_at(ts, depth, q) {
                Err(f) => Err(f),
                Ok((row, r)) => {
                    match mark_at(ts, r, Punct::RParen) {
                        Err(f) => Err(f),
                        Ok((_, s)) => {
                            if tok_at(ts, s) == Tok::Mark(Punct::Comma)
                                && beyond(ts, p, (s + 1) as usize)
                            {
                                match expr_rows_at(ts, depth, (s + 1) as usize) {
                                    Err(f) => Err(f),
                                    Ok((rest, t)) => {
                                        Ok((ExprRows::Cons(Box::new(row), Box::new(rest)), t))
                                    },
                                }
                            } else {
                                Ok((ExprRows::Cons(Box::new(row), Box::new(ExprRows::Nil)), s))
                            }
                        },
                    }
                },
            }
        },
    }
}

/// A query block behind the word `SELECT`.
pub open spec fn select_at(ts: Seq<Tok>, depth: u32, p: usize) -> Result<(Select, usize), Fault>
    decreases depth, 65int, 0int,
{
    match distinct_clause_at(ts, depth, p) {
        Err(f) => Err(f),
        Ok((distinct, q)) => {
            match items_at(ts, depth, q) {
                Err(f) => Err(f),
                Ok((items, r)) => {
                    match from_clause_at(ts, depth, r) {
                        Err(f) => Err(f),
                        Ok((source, s)) => {
                            match condition_at(ts, depth, Kw::Where, s) {
                                Err(f) => Err(f),
                                Ok((filter, t)) => {
                                    match group_clause_at(ts, depth, t) {
                                        Err(f) => Err(f),
                                        Ok((group, u)) => {
                                            match condition_at(ts, depth, Kw::Having, u) {
                                                Err(f) => Err(f),
                                                Ok((having, v)) => {
                                                    Ok(
                                                        (
                                                            Select {
                                                                distinct,
                                                                items,
                                                                source,
                                                                filter: filter.1,
                                                                group,
                                                                has_having: having.0,
                                                                having: having.1,
                                                                orders: Orders::Nil,
                                                            },
                                                            v,
                                                        ),
                                                    )
                                                },
                                            }
                                        },
                                    }
                                },
                            }
                        },
                    }
                },
            }
        },
    }
}

/// Whether and by what a query block drops duplicates.
pub open spec fn distinct_clause_at(
    ts: Seq<Tok>,
    depth: u32,
    p: usize,
) -> Result<(Distinct, usize), Fault>
    decreases depth, 62int, 0int,
{
    if is_word(tok_at(ts, p), Kw::Distinct) {
        if is_word(tok_at(ts, (p + 1) as usize), Kw::On) {
            match mark_at(ts, (p + 2) as usize, Punct::LParen) {
                Err(f) => Err(f),
                Ok((_, q)) => {
                    match exprs_at(ts, depth, q) {
                        Err(f) => Err(f),
                        Ok((keys, r)) => {
                            match mark_at(ts, r, Punct::RParen) {
                                Err(f) => Err(f),
                                Ok((_, s)) => {
                                    Ok((Distinct::On(Box::new(keys)), s))
                                },
                            }
                        },
                    }
                },
            }
        } else {
            Ok((Distinct::Rows, (p + 1) as usize))
        }
    } else if is_word(tok_at(ts, p), Kw::All) {
        Ok((Distinct::No, (p + 1) as usize))
    } else {
        Ok((Distinct::No, p))
    }
}

/// The condition behind the word `k`, and whether there is one.
pub open spec fn condition_at(
    ts: Seq<Tok>,
    depth: u32,
    k: Kw,
    p: usize,
) -> Result<((bool, Expr), usize), Fault>
    decreases depth, 62int, 0int,
{
    if is_word(tok_at(ts, p), k) {
        match prec_at(ts, depth, 1, (p + 1) as usize) {
            Err(f) => Err(f),
            Ok((e, q)) => {
                Ok(((true, e), q))
            },
        }
    } else {
        Ok(((false, Expr::Lit(Datum::Bool(true))), p))
    }
}

/// The grouping expressions of a query block.
pub open spec fn group_clause_at(
    ts: Seq<Tok>,
    depth: u32,
    p: usize,
) -> Result<(Exprs, usize), Fault>
    decreases depth, 62int, 0int,
{
    if is_word(tok_at(ts, p), Kw::Group) {
        match word_at(ts, (p + 1) as usize, Kw::By) {
            Err(f) => Err(f),
            Ok((_, q)) => {
                exprs_at(ts, depth, q)
            },
        }
    } else {
        Ok((Exprs::Nil, p))
    }
}

/// A select list.
pub open spec fn items_at(ts: Seq<Tok>, depth: u32, p: usize) -> Result<(Items, usize), Fault>
    decreases depth, 60int, ts.len() - p,
{
    match item_at(ts, depth, p) {
        Err(f) => Err(f),
        Ok((item, q)) => {
            if tok_at(ts, q) == Tok::Mark(Punct::Comma) && beyond(ts, p, (q + 1) as usize) {
                match items_at(ts, depth, (q + 1) as usize) {
                    Err(f) => Err(f),
                    Ok((rest, r)) => {
                        Ok((Items::Cons(item, Box::new(rest)), r))
                    },
                }
            } else {
                Ok((Items::Cons(item, Box::new(Items::Nil)), q))
            }
        },
    }
}

/// One entry of a select list.
pub open spec fn item_at(ts: Seq<Tok>, depth: u32, p: usize) -> Result<(Item, usize), Fault>
    decreases depth, 59int, 0int,
{
    match tok_at(ts, p) {
        Tok::Mark(Punct::Star) => Ok((Item::Star, (p + 1) as usize)),
        Tok::Word(_, n) => if tok_at(ts, (p + 1) as usize) == Tok::Mark(Punct::Dot)
            && tok_at(ts, (p + 2) as usize) == Tok::Mark(Punct::Star)
        {
            Ok((Item::TableStar(n), (p + 3) as usize))
        } else {
            expr_item_at(ts, depth, p)
        },
        _ => expr_item_at(ts, depth, p),
    }
}

/// An expression of a select list, with a name or without.
pub open spec fn expr_item_at(ts: Seq<Tok>, depth: u32, p: usize) -> Result<(Item, usize), Fault>
    decreases depth, 58int, 0int,
{
    match prec_at(ts, depth, 1, p) {
        Err(f) => Err(f),
        Ok((e, q)) => {
            match alias_at(ts, q) {
                Err(f) => Err(f),
                Ok((a, r)) => {
                    Ok((Item::Expr(Box::new(e), a), r))
                },
            }
        },
    }
}

/// Where the rows of a query block come from.
pub open spec fn from_clause_at(
    ts: Seq<Tok>,
    depth: u32,
    p: usize,
) -> Result<(Source, usize), Fault>
    decreases depth, 64int, 0int,
{
    if is_word(tok_at(ts, p), Kw::From) {
        match joins_at(ts, depth, (p + 1) as usize) {
            Err(f) => Err(f),
            Ok((first, q)) => {
                more_sources_at(ts, depth, first, q)
            },
        }
    } else {
        Ok((Source::Nothing, p))
    }
}

/// The sources that follow `first` behind commas.
pub open spec fn more_sources_at(
    ts: Seq<Tok>,
    depth: u32,
    first: Source,
    p: usize,
) -> Result<(Source, usize), Fault>
    decreases depth, 63int, ts.len() - p,
{
    if tok_at(ts, p) == Tok::Mark(Punct::Comma) {
        match joins_at(ts, depth, (p + 1) as usize) {
            Err(f) => Err(f),
            Ok((second, q)) => {
                if beyond(ts, p, q) {
                    more_sources_at(
                        ts,
                        depth,
                        Source::Join(
                            JoinKind::Inner,
                            Box::new(first),
                            Box::new(second),
                            JoinOn::Always,
                        ),
                        q,
                    )
                } else {
                    Err(Fault::Syntax { at: p })
                }
            },
        }
    } else {
        Ok((first, p))
    }
}

/// A source and what is joined to it.
pub open spec fn joins_at(ts: Seq<Tok>, depth: u32, p: usize) -> Result<(Source, usize), Fault>
    decreases depth, 62int, 0int,
{
    match source_at(ts, depth, p) {
        Err(f) => Err(f),
        Ok((first, q)) => {
            more_joins_at(ts, depth, first, q)
        },
    }
}

/// The joins that follow the source `first`.
pub open spec fn more_joins_at(
    ts: Seq<Tok>,
    depth: u32,
    first: Source,
    p: usize,
) -> Result<(Source, usize), Fault>
    decreases depth, 61int, ts.len() - p,
{
    match join_head_at(ts, p) {
        Err(f) => Err(f),
        Ok((head, q)) => {
            match head {
                None => Ok((first, p)),
                Some((kind, natural, cross)) => {
                    match source_at(ts, depth, q) {
                        Err(f) => Err(f),
                        Ok((second, r)) => {
                            match join_on_at(ts, depth, natural, cross, r) {
                                Err(f) => Err(f),
                                Ok((on, s)) => {
                                    if beyond(ts, p, s) {
                                        more_joins_at(
                                            ts,
                                            depth,
                                            Source::Join(
                                                kind,
                                                Box::new(first),
                                                Box::new(second),
                                                on,
                                            ),
                                            s,
                                        )
                                    } else {
                                        Err(Fault::Syntax { at: p })
                                    }
                                },
                            }
                        },
                    }
                },
            }
        },
    }
}

/// The words that open a join: its kind, and whether it is a natural or a cross
/// join.
pub open spec fn join_head_at(ts: Seq<Tok>, p: usize) -> Result<(
    Option<(JoinKind, bool, bool)>,
    usize,
), Fault>
{
    if is_word(tok_at(ts, p), Kw::Cross) {
        match word_at(ts, (p + 1) as usize, Kw::Join) {
            Err(f) => Err(f),
            Ok((_, q)) => {
                Ok((Some((JoinKind::Inner, false, true)), q))
            },
        }
    } else if is_word(tok_at(ts, p), Kw::Natural) {
        match join_kind_at(ts, (p + 1) as usize) {
            Err(f) => Err(f),
            Ok((kind, q)) => {
                match kind {
                    None => Err(Fault::Syntax { at: p }),
                    Some(k) => Ok((Some((k, true, false)), q)),
                }
            },
        }
    } else {
        match join_kind_at(ts, p) {
            Err(f) => Err(f),
            Ok((kind, q)) => {
                match kind {
                    None => Ok((None, p)),
                    Some(k) => Ok((Some((k, false, false)), q)),
                }
            },
        }
    }
}

/// The kind of a join, up to the word `JOIN`.
pub open spec fn join_kind_at(ts: Seq<Tok>, p: usize) -> Result<(Option<JoinKind>, usize), Fault>
{
    match tok_at(ts, p) {
        Tok::Word(Kw::Join, _) => Ok((Some(JoinKind::Inner), (p + 1) as usize)),
        Tok::Word(Kw::Inner, _) => {
            match word_at(ts, (p + 1) as usize, Kw::Join) {
                Err(f) => Err(f),
                Ok((_, q)) => {
                    Ok((Some(JoinKind::Inner), q))
                },
            }
        },
        Tok::Word(Kw::Left, _) => {
            match outer_join_at(ts, (p + 1) as usize) {
                Err(f) => Err(f),
                Ok((_, q)) => {
                    Ok((Some(JoinKind::Left), q))
                },
            }
        },
        Tok::Word(Kw::Right, _) => {
            match outer_join_at(ts, (p + 1) as usize) {
                Err(f) => Err(f),
                Ok((_, q)) => {
                    Ok((Some(JoinKind::Right), q))
                },
            }
        },
        Tok::Word(Kw::Full, _) => {
            match outer_join_at(ts, (p + 1) as usize) {
                Err(f) => Err(f),
                Ok((_, q)) => {
                    Ok((Some(JoinKind::Full), q))
                },
            }
        },
        _ => Ok((None, p)),
    }
}

/// The word `JOIN`, with or without `OUTER` before it.
pub open spec fn outer_join_at(ts: Seq<Tok>, p: usize) -> Result<((), usize), Fault>
{
    if is_word(tok_at(ts, p), Kw::Outer) {
        word_at(ts, (p + 1) as usize, Kw::Join)
    } else {
        word_at(ts, p, Kw::Join)
    }
}

/// The condition of a join.
pub open spec fn join_on_at(
    ts: Seq<Tok>,
    depth: u32,
    natural: bool,
    cross: bool,
    p: usize,
) -> Result<(JoinOn, usize), Fault>
    decreases depth, 59int, 0int,
{
    if natural {
        Ok((JoinOn::Natural, p))
    } else if cross {
        Ok((JoinOn::Always, p))
    } else if is_word(tok_at(ts, p), Kw::On) {
        match prec_at(ts, depth, 1, (p + 1) as usize) {
            Err(f) => Err(f),
            Ok((e, q)) => {
                Ok((JoinOn::On(Box::new(e)), q))
            },
        }
    } else if is_word(tok_at(ts, p), Kw::Using) {
        match ident_list_at(ts, (p + 1) as usize) {
            Err(f) => Err(f),
            Ok((names, q)) => {
                if is_word(tok_at(ts, q), Kw::As) {
                    match ident_at(ts, (q + 1) as usize) {
                        Err(f) => Err(f),
                        Ok((n, r)) => {
                            Ok((JoinOn::Using(Box::new(names), Some(n)), r))
                        },
                    }
                } else {
                    Ok((JoinOn::Using(Box::new(names), None), q))
                }
            },
        }
    } else {
        Err(Fault::Syntax { at: p })
    }
}

/// One source: a table, a query with a name, or joins in parentheses.
pub open spec fn source_at(ts: Seq<Tok>, depth: u32, p: usize) -> Result<(Source, usize), Fault>
    decreases depth, 60int, 0int,
{
    if tok_at(ts, p) == Tok::Mark(Punct::LParen) {
        if depth == 0 {
            Err(Fault::TooDeep)
        } else if is_word(tok_at(ts, (p + 1) as usize), Kw::Select)
            || is_word(tok_at(ts, (p + 1) as usize), Kw::Values)
            || is_word(tok_at(ts, (p + 1) as usize), Kw::With)
        {
            match query_at(ts, ((depth - 1) as u32), (p + 1) as usize) {
                Err(f) => Err(f),
                Ok((inner, q)) => {
                    match mark_at(ts, q, Punct::RParen) {
                        Err(f) => Err(f),
                        Ok((_, r)) => {
                            match alias_at(ts, r) {
                                Err(f) => Err(f),
                                Ok((a, s)) => {
                                    match column_aliases_at(ts, s) {
                                        Err(f) => Err(f),
                                        Ok((cols, t)) => {
                                            match a {
                                                None => Err(Fault::Syntax { at: r }),
                                                Some(n) => Ok(
                                                    (
                                                        Source::Sub(
                                                            Box::new(inner),
                                                            n,
                                                            Box::new(cols),
                                                        ),
                                                        t,
                                                    ),
                                                ),
                                            }
                                        },
                                    }
                                },
                            }
                        },
                    }
                },
            }
        } else {
            match joins_at(ts, ((depth - 1) as u32), (p + 1) as usize) {
                Err(f) => Err(f),
                Ok((inner, q)) => {
                    match mark_at(ts, q, Punct::RParen) {
                        Err(f) => Err(f),
                        Ok((_, r)) => {
                            Ok((inner, r))
                        },
                    }
                },
            }
        }
    } else if is_word(tok_at(ts, p), Kw::Rows) && is_word(tok_at(ts, (p + 1) as usize), Kw::From) {
        match mark_at(ts, (p + 2) as usize, Punct::LParen) {
            Err(f) => Err(f),
            Ok((_, q)) => {
                if depth == 0 {
                    Err(Fault::TooDeep)
                } else {
                    match series_at(ts, ((depth - 1) as u32), q) {
                        Err(f) => Err(f),
                        Ok((inner, r)) => {
                            match mark_at(ts, r, Punct::RParen) {
                                Err(f) => Err(f),
                                Ok((_, s)) => {
                                    series_name_at(ts, inner.0, inner.1, s)
                                },
                            }
                        },
                    }
                }
            },
        }
    } else if is_word(tok_at(ts, p), Kw::GenerateSeries)
        && tok_at(ts, (p + 1) as usize) == Tok::Mark(Punct::LParen)
    {
        if depth == 0 {
            Err(Fault::TooDeep)
        } else {
            match series_at(ts, ((depth - 1) as u32), p) {
                Err(f) => Err(f),
                Ok((inner, q)) => {
                    series_name_at(ts, inner.0, inner.1, q)
                },
            }
        }
    } else {
        match name_at(ts, p) {
            Err(f) => Err(f),
            Ok((n, q)) => {
                match alias_at(ts, q) {
                    Err(f) => Err(f),
                    Ok((a, r)) => {
                        Ok((Source::Table(n, a), r))
                    },
                }
            },
        }
    }
}

/// A series of numbers, with the name of the function that makes it.
pub open spec fn series_at(
    ts: Seq<Tok>,
    depth: u32,
    p: usize,
) -> Result<((usize, Query), usize), Fault>
    decreases depth, 62int, 0int,
{
    match tok_at(ts, p) {
        Tok::Word(Kw::GenerateSeries, n) => {
            match mark_at(ts, (p + 1) as usize, Punct::LParen) {
                Err(f) => Err(f),
                Ok((_, q)) => {
                    match prec_at(ts, depth, 1, q) {
                        Err(f) => Err(f),
                        Ok((a, r)) => {
                            match mark_at(ts, r, Punct::Comma) {
                                Err(f) => Err(f),
                                Ok((_, s)) => {
                                    match prec_at(ts, depth, 1, s) {
                                        Err(f) => Err(f),
                                        Ok((b, t)) => {
                                            match mark_at(ts, t, Punct::RParen) {
                                                Err(f) => Err(f),
                                                Ok((_, u)) => {
                                                    Ok(
                                                        (
                                                            (
                                                                n,
                                                                Query::Series(Box::new(a), Box::new(b)),
                                                            ),
                                                            u,
                                                        ),
                                                    )
                                                },
                                            }
                                        },
                                    }
                                },
                            }
                        },
                    }
                },
            }
        },
        _ => Err(Fault::Syntax { at: p }),
    }
}

/// The names of a series and of its column: a name for the series alone is that of
/// its column too.
pub open spec fn series_name_at(
    ts: Seq<Tok>,
    of: usize,
    inner: Query,
    p: usize,
) -> Result<(Source, usize), Fault>
{
    match alias_at(ts, p) {
        Err(f) => Err(f),
        Ok((a, q)) => {
            match column_aliases_at(ts, q) {
                Err(f) => Err(f),
                Ok((cols, r)) => {
                    let n: usize = match a {
                        None => of,
                        Some(m) => m,
                    };
                    match cols {
                        Idents::Nil => Ok(
                            (
                                Source::Sub(
                                    Box::new(inner),
                                    n,
                                    Box::new(Idents::Cons(n, Box::new(Idents::Nil))),
                                ),
                                r,
                            ),
                        ),
                        _ => Ok((Source::Sub(Box::new(inner), n, Box::new(cols)), r)),
                    }
                },
            }
        },
    }
}

/// Names for columns in parentheses, or nothing.
pub open spec fn column_aliases_at(ts: Seq<Tok>, p: usize) -> Result<(Idents, usize), Fault>
{
    if tok_at(ts, p) == Tok::Mark(Punct::LParen) {
        match idents_at(ts, (p + 1) as usize) {
            Err(f) => Err(f),
            Ok((names, q)) => {
                match mark_at(ts, q, Punct::RParen) {
                    Err(f) => Err(f),
                    Ok((_, r)) => {
                        Ok((names, r))
                    },
                }
            },
        }
    } else {
        Ok((Idents::Nil, p))
    }
}

/// Expressions with commas between them.
pub open spec fn exprs_at(ts: Seq<Tok>, depth: u32, p: usize) -> Result<(Exprs, usize), Fault>
    decreases depth, 55int, ts.len() - p,
{
    match prec_at(ts, depth, 1, p) {
        Err(f) => Err(f),
        Ok((e, q)) => {
            if tok_at(ts, q) == Tok::Mark(Punct::Comma) && beyond(ts, p, (q + 1) as usize) {
                match exprs_at(ts, depth, (q + 1) as usize) {
                    Err(f) => Err(f),
                    Ok((rest, r)) => {
                        Ok((Exprs::Cons(Box::new(e), Box::new(rest)), r))
                    },
                }
            } else {
                Ok((Exprs::Cons(Box::new(e), Box::new(Exprs::Nil)), q))
            }
        },
    }
}

/// An expression whose operators bind at least as tightly as `min`: 1 for `OR`,
/// 2 for `AND`, 4 for comparisons, 5 for joined texts, 6 for sums, 7 for products.
pub open spec fn prec_at(
    ts: Seq<Tok>,
    depth: u32,
    min: u8,
    p: usize,
) -> Result<(Expr, usize), Fault>
    decreases depth, 2 * (10 - min) + 21, 0int,
{
    if min > 9 {
        Err(Fault::Syntax { at: p })
    } else if is_word(tok_at(ts, p), Kw::Not) {
        if depth == 0 {
            Err(Fault::TooDeep)
        } else {
            match prec_at(ts, ((depth - 1) as u32), 3, (p + 1) as usize) {
                Err(f) => Err(f),
                Ok((e, q)) => {
                    prec_rest_at(ts, depth, min, Expr::Not(Box::new(e)), q)
                },
            }
        }
    } else {
        match unary_at(ts, depth, p) {
            Err(f) => Err(f),
            Ok((e, q)) => {
                prec_rest_at(ts, depth, min, e, q)
            },
        }
    }
}

/// The operators and operands that follow the expression `left`.
pub open spec fn prec_rest_at(
    ts: Seq<Tok>,
    depth: u32,
    min: u8,
    left: Expr,
    p: usize,
) -> Result<(Expr, usize), Fault>
    decreases depth, 2 * (10 - min) + 20, 2 * (ts.len() - p),
{
    match operator_at(ts, min, p) {
        Err(f) => Err(f),
        Ok((op, q)) => {
            match op {
                Operator::Nothing => Ok((left, p)),
                Operator::Or => {
                    match prec_at(ts, depth, 2, q) {
                        Err(f) => Err(f),
                        Ok((right, r)) => {
                            step_at(ts, depth, min, p, Expr::Or(Box::new(left), Box::new(right)), r)
                        },
                    }
                },
                Operator::And => {
                    match prec_at(ts, depth, 3, q) {
                        Err(f) => Err(f),
                        Ok((right, r)) => {
                            step_at(
                                ts,
                                depth,
                                min,
                                p,
                                Expr::And(Box::new(left), Box::new(right)),
                                r,
                            )
                        },
                    }
                },
                Operator::Compare(c) => {
                    match prec_at(ts, depth, 5, q) {
                        Err(f) => Err(f),
                        Ok((right, r)) => {
                            step_at(
                                ts,
                                depth,
                                min,
                                p,
                                Expr::Compare(c, Box::new(left), Box::new(right)),
                                r,
                            )
                        },
                    }
                },
                Operator::Join => {
                    match prec_at(ts, depth, 6, q) {
                        Err(f) => Err(f),
                        Ok((right, r)) => {
                            step_at(
                                ts,
                                depth,
                                min,
                                p,
                                Expr::Call(
                                    TextFn::Join,
                                    symbols::ANONYMOUS,
                                    Box::new(left),
                                    Box::new(right),
                                    Box::new(Expr::Lit(Datum::Null)),
                                ),
                                r,
                            )
                        },
                    }
                },
                Operator::Plus(a) => {
                    match prec_at(ts, depth, 7, q) {
                        Err(f) => Err(f),
                        Ok((right, r)) => {
                            step_at(
                                ts,
                                depth,
                                min,
                                p,
                                Expr::Arith(a, Box::new(left), Box::new(right)),
                                r,
                            )
                        },
                    }
                },
                Operator::Times(a) => {
                    match prec_at(ts, depth, 8, q) {
                        Err(f) => Err(f),
                        Ok((right, r)) => {
                            step_at(
                                ts,
                                depth,
                                min,
                                p,
                                Expr::Arith(a, Box::new(left), Box::new(right)),
                                r,
                            )
                        },
                    }
                },
                Operator::IsNull(negated) => step_at(
                    ts,
                    depth,
                    min,
                    p,
                    Expr::IsNull(Box::new(left), negated),
                    q,
                ),
                Operator::Between(negated) => {
                    match prec_at(ts, depth, 5, q) {
                        Err(f) => Err(f),
                        Ok((low, r)) => {
                            match word_at(ts, r, Kw::And) {
                                Err(f) => Err(f),
                                Ok((_, s)) => {
                                    match prec_at(ts, depth, 5, s) {
                                        Err(f) => Err(f),
                                        Ok((high, t)) => {
                                            step_at(
                                                ts,
                                                depth,
                                                min,
                                                p,
                                                Expr::Between(
                                                    Box::new(left),
                                                    Box::new(low),
                                                    Box::new(high),
                                                    negated,
                                                ),
                                                t,
                                            )
                                        },
                                    }
                                },
                            }
                        },
                    }
                },
                Operator::Like(negated) => {
                    match prec_at(ts, depth, 5, q) {
                        Err(f) => Err(f),
                        Ok((right, r)) => {
                            step_at(
                                ts,
                                depth,
                                min,
                                p,
                                Expr::Like(Box::new(left), Box::new(right), negated),
                                r,
                            )
                        },
                    }
                },
                Operator::In(negated) => {
                    match mark_at(ts, q, Punct::LParen) {
                        Err(f) => Err(f),
                        Ok((_, r)) => {
                            if depth == 0 {
                                Err(Fault::TooDeep)
                            } else if tok_at(ts, r) == Tok::Mark(Punct::RParen) {
                                step_at(
                                    ts,
                                    depth,
                                    min,
                                    p,
                                    Expr::InList(Box::new(left), Box::new(Exprs::Nil), negated),
                                    (r + 1) as usize,
                                )
                            } else if is_word(tok_at(ts, r), Kw::Select)
                                || is_word(tok_at(ts, r), Kw::Values)
                            {
                                match query_at(ts, ((depth - 1) as u32), r) {
                                    Err(f) => Err(f),
                                    Ok((inner, s)) => {
                                        match mark_at(ts, s, Punct::RParen) {
                                            Err(f) => Err(f),
                                            Ok((_, t)) => {
                                                step_at(
                                                    ts,
                                                    depth,
                                                    min,
                                                    p,
                                                    Expr::InQuery(
                                                        Box::new(left),
                                                        Box::new(inner),
                                                        negated,
                                                    ),
                                                    t,
                                                )
                                            },
                                        }
                                    },
                                }
                            } else {
                                match exprs_at(ts, ((depth - 1) as u32), r) {
                                    Err(f) => Err(f),
                                    Ok((list, s)) => {
                                        match mark_at(ts, s, Punct::RParen) {
                                            Err(f) => Err(f),
                                            Ok((_, t)) => {
                                                step_at(
                                                    ts,
                                                    depth,
                                                    min,
                                                    p,
                                                    Expr::InList(
                                                        Box::new(left),
                                                        Box::new(list),
                                                        negated,
                                                    ),
                                                    t,
                                                )
                                            },
                                        }
                                    },
                                }
                            }
                        },
                    }
                },
            }
        },
    }
}

/// What follows at `q` the expression `left`, which was read from `p` on.
pub open spec fn step_at(
    ts: Seq<Tok>,
    depth: u32,
    min: u8,
    p: usize,
    left: Expr,
    q: usize,
) -> Result<(Expr, usize), Fault>
    decreases depth, 2 * (10 - min) + 20, 2 * (ts.len() - p) - 1,
{
    if beyond(ts, p, q) {
        prec_rest_at(ts, depth, min, left, q)
    } else {
        Err(Fault::Syntax { at: p })
    }
}

/// The operator at a place, if it binds at least as tightly as `min`.
pub open spec fn operator_at(ts: Seq<Tok>, min: u8, p: usize) -> Result<(Operator, usize), Fault>
{
    match tok_at(ts, p) {
        Tok::Word(Kw::Or, _) => if min <= 1 {
            Ok((Operator::Or, (p + 1) as usize))
        } else {
            Ok((Operator::Nothing, p))
        },
        Tok::Word(Kw::And, _) => if min <= 2 {
            Ok((Operator::And, (p + 1) as usize))
        } else {
            Ok((Operator::Nothing, p))
        },
        Tok::Word(Kw::Is, _) => if min <= 4 {
            if is_word(tok_at(ts, (p + 1) as usize), Kw::Not) {
                match word_at(ts, (p + 2) as usize, Kw::Null) {
                    Err(f) => Err(f),
                    Ok((_, q)) => {
                        Ok((Operator::IsNull(true), q))
                    },
                }
            } else {
                match word_at(ts, (p + 1) as usize, Kw::Null) {
                    Err(f) => Err(f),
                    Ok((_, q)) => {
                        Ok((Operator::IsNull(false), q))
                    },
                }
            }
        } else {
            Ok((Operator::Nothing, p))
        },
        Tok::Word(Kw::In, _) => if min <= 4 {
            Ok((Operator::In(false), (p + 1) as usize))
        } else {
            Ok((Operator::Nothing, p))
        },
        Tok::Word(Kw::Like, _) => if min <= 4 {
            Ok((Operator::Like(false), (p + 1) as usize))
        } else {
            Ok((Operator::Nothing, p))
        },
        Tok::Word(Kw::Between, _) => if min <= 4 {
            Ok((Operator::Between(false), (p + 1) as usize))
        } else {
            Ok((Operator::Nothing, p))
        },
        Tok::Word(Kw::Not, _) => if min <= 4 && is_word(tok_at(ts, (p + 1) as usize), Kw::In) {
            Ok((Operator::In(true), (p + 2) as usize))
        } else if min <= 4 && is_word(tok_at(ts, (p + 1) as usize), Kw::Between) {
            Ok((Operator::Between(true), (p + 2) as usize))
        } else if min <= 4 && is_word(tok_at(ts, (p + 1) as usize), Kw::Like) {
            Ok((Operator::Like(true), (p + 2) as usize))
        } else {
            Ok((Operator::Nothing, p))
        },
        Tok::Mark(Punct::Eq) => if min <= 4 {
            Ok((Operator::Compare(Compare::Eq), (p + 1) as usize))
        } else {
            Ok((Operator::Nothing, p))
        },
        Tok::Mark(Punct::Ne) => if min <= 4 {
            Ok((Operator::Compare(Compare::Ne), (p + 1) as usize))
        } else {
            Ok((Operator::Nothing, p))
        },
        Tok::Mark(Punct::Lt) => if min <= 4 {
            Ok((Operator::Compare(Compare::Lt), (p + 1) as usize))
        } else {
            Ok((Operator::Nothing, p))
        },
        Tok::Mark(Punct::Le) => if min <= 4 {
            Ok((Operator::Compare(Compare::Le), (p + 1) as usize))
        } else {
            Ok((Operator::Nothing, p))
        },
        Tok::Mark(Punct::Gt) => if min <= 4 {
            Ok((Operator::Compare(Compare::Gt), (p + 1) as usize))
        } else {
            Ok((Operator::Nothing, p))
        },
        Tok::Mark(Punct::Ge) => if min <= 4 {
            Ok((Operator::Compare(Compare::Ge), (p + 1) as usize))
        } else {
            Ok((Operator::Nothing, p))
        },
        Tok::Mark(Punct::Plus) => if min <= 6 {
            Ok((Operator::Plus(Arith::Plus), (p + 1) as usize))
        } else {
            Ok((Operator::Nothing, p))
        },
        Tok::Mark(Punct::Minus) => if min <= 6 {
            Ok((Operator::Plus(Arith::Minus), (p + 1) as usize))
        } else {
            Ok((Operator::Nothing, p))
        },
        Tok::Mark(Punct::Star) => if min <= 7 {
            Ok((Operator::Times(Arith::Times), (p + 1) as usize))
        } else {
            Ok((Operator::Nothing, p))
        },
        Tok::Mark(Punct::Slash) => if min <= 7 {
            Ok((Operator::Times(Arith::Divide), (p + 1) as usize))
        } else {
            Ok((Operator::Nothing, p))
        },
        Tok::Mark(Punct::Percent) => if min <= 7 {
            Ok((Operator::Times(Arith::Modulo), (p + 1) as usize))
        } else {
            Ok((Operator::Nothing, p))
        },
        Tok::Mark(Punct::Bars) => if min <= 5 {
            Ok((Operator::Join, (p + 1) as usize))
        } else {
            Ok((Operator::Nothing, p))
        },
        _ => Ok((Operator::Nothing, p)),
    }
}

/// An operand, with its signs and casts.
pub open spec fn unary_at(ts: Seq<Tok>, depth: u32, p: usize) -> Result<(Expr, usize), Fault>
    decreases depth, 10int, 0int,
{
    if tok_at(ts, p) == Tok::Mark(Punct::Minus) {
        if depth == 0 {
            Err(Fault::TooDeep)
        } else {
            match unary_at(ts, ((depth - 1) as u32), (p + 1) as usize) {
                Err(f) => Err(f),
                Ok((e, q)) => {
                    Ok((Expr::Negate(Box::new(e)), q))
                },
            }
        }
    } else if tok_at(ts, p) == Tok::Mark(Punct::Plus) {
        if depth == 0 {
            Err(Fault::TooDeep)
        } else {
            unary_at(ts, ((depth - 1) as u32), (p + 1) as usize)
        }
    } else {
        match primary_at(ts, depth, p) {
            Err(f) => Err(f),
            Ok((e, q)) => {
                casts_at(ts, e, q)
            },
        }
    }
}

/// The casts that follow the operand `e`.
pub open spec fn casts_at(ts: Seq<Tok>, e: Expr, p: usize) -> Result<(Expr, usize), Fault>
    decreases ts.len() - p,
{
    if tok_at(ts, p) == Tok::Mark(Punct::DoubleColon) {
        match data_type_at(ts, (p + 1) as usize) {
            Err(f) => Err(f),
            Ok((ty, q)) => {
                if beyond(ts, p, q) {
                    casts_at(ts, Expr::Cast(Box::new(e), ty), q)
                } else {
                    Err(Fault::Syntax { at: p })
                }
            },
        }
    } else {
        Ok((e, p))
    }
}

/// An operand.
pub open spec fn primary_at(ts: Seq<Tok>, depth: u32, p: usize) -> Result<(Expr, usize), Fault>
    decreases depth, 5int, 0int,
{
    match tok_at(ts, p) {
        Tok::Num(_) => {
            match literal_at(ts, p) {
                Err(f) => Err(f),
                Ok((d, q)) => {
                    Ok((Expr::Lit(d), q))
                },
            }
        },
        Tok::Text(_) => {
            match literal_at(ts, p) {
                Err(f) => Err(f),
                Ok((d, q)) => {
                    Ok((Expr::Lit(d), q))
                },
            }
        },
        Tok::Param(k) => Ok((Expr::Param(k), (p + 1) as usize)),
        Tok::Mark(Punct::LParen) => if depth == 0 {
            Err(Fault::TooDeep)
        } else if is_word(tok_at(ts, (p + 1) as usize), Kw::Select)
            || is_word(tok_at(ts, (p + 1) as usize), Kw::Values)
        {
            match query_at(ts, ((depth - 1) as u32), (p + 1) as usize) {
                Err(f) => Err(f),
                Ok((inner, q)) => {
                    match mark_at(ts, q, Punct::RParen) {
                        Err(f) => Err(f),
                        Ok((_, r)) => {
                            Ok((Expr::Scalar(Box::new(inner)), r))
                        },
                    }
                },
            }
        } else {
            match prec_at(ts, ((depth - 1) as u32), 1, (p + 1) as usize) {
                Err(f) => Err(f),
                Ok((e, q)) => {
                    match mark_at(ts, q, Punct::RParen) {
                        Err(f) => Err(f),
                        Ok((_, r)) => {
                            Ok((e, r))
                        },
                    }
                },
            }
        },
        Tok::Word(k, n) => match k {
            Kw::Null => Ok((Expr::Lit(Datum::Null), (p + 1) as usize)),
            Kw::True => Ok((Expr::Lit(Datum::Bool(true)), (p + 1) as usize)),
            Kw::False => Ok((Expr::Lit(Datum::Bool(false)), (p + 1) as usize)),
            Kw::Default => Ok((Expr::Default, (p + 1) as usize)),
            Kw::Exists => if depth == 0 {
                Err(Fault::TooDeep)
            } else {
                match mark_at(ts, (p + 1) as usize, Punct::LParen) {
                    Err(f) => Err(f),
                    Ok((_, q)) => {
                        match query_at(ts, ((depth - 1) as u32), q) {
                            Err(f) => Err(f),
                            Ok((inner, r)) => {
                                match mark_at(ts, r, Punct::RParen) {
                                    Err(f) => Err(f),
                                    Ok((_, s)) => {
                                        Ok((Expr::Exists(Box::new(inner)), s))
                                    },
                                }
                            },
                        }
                    },
                }
            },
            Kw::Case => if depth == 0 {
                Err(Fault::TooDeep)
            } else {
                case_at(ts, ((depth - 1) as u32), (p + 1) as usize)
            },
            Kw::Cast => if depth == 0 {
                Err(Fault::TooDeep)
            } else {
                match mark_at(ts, (p + 1) as usize, Punct::LParen) {
                    Err(f) => Err(f),
                    Ok((_, q)) => {
                        match prec_at(ts, ((depth - 1) as u32), 1, q) {
                            Err(f) => Err(f),
                            Ok((e, r)) => {
                                match word_at(ts, r, Kw::As) {
                                    Err(f) => Err(f),
                                    Ok((_, s)) => {
                                        match data_type_at(ts, s) {
                                            Err(f) => Err(f),
                                            Ok((ty, t)) => {
                                                match mark_at(ts, t, Punct::RParen) {
                                                    Err(f) => Err(f),
                                                    Ok((_, u)) => {
                                                        Ok((Expr::Cast(Box::new(e), ty), u))
                                                    },
                                                }
                                            },
                                        }
                                    },
                                }
                            },
                        }
                    },
                }
            },
            _ => if keyword::reserved(k) {
                Err(Fault::Syntax { at: p })
            } else if tok_at(ts, (p + 1) as usize) == Tok::Mark(Punct::LParen) {
                if depth == 0 {
                    Err(Fault::TooDeep)
                } else {
                    call_at(ts, ((depth - 1) as u32), k, n, (p + 2) as usize)
                }
            } else if tok_at(ts, (p + 1) as usize) == Tok::Mark(Punct::Dot) {
                match ident_at(ts, (p + 2) as usize) {
                    Err(f) => Err(f),
                    Ok((m, q)) => {
                        Ok((Expr::Col(Some(n), m), q))
                    },
                }
            } else {
                Ok((Expr::Col(None, n), (p + 1) as usize))
            },
        },
        _ => Err(Fault::Syntax { at: p }),
    }
}

/// A function call behind its opening parenthesis.
pub open spec fn call_at(
    ts: Seq<Tok>,
    depth: u32,
    k: Kw,
    n: usize,
    p: usize,
) -> Result<(Expr, usize), Fault>
    decreases depth, 59int, 0int,
{
    match k {
        Kw::Count => if tok_at(ts, p) == Tok::Mark(Punct::Star) {
            match mark_at(ts, (p + 1) as usize, Punct::RParen) {
                Err(f) => Err(f),
                Ok((_, q)) => {
                    if is_word(tok_at(ts, q), Kw::Filter) {
                        match filter_at(ts, depth, (q + 1) as usize) {
                            Err(f) => Err(f),
                            Ok((c, r)) => {
                                Ok(
                                    (
                                        Expr::Agg(
                                            AggFn::Count,
                                            false,
                                            Box::new(
                                                Expr::Case(
                                                    Box::new(
                                                        Whens::Cons(
                                                            Box::new(c),
                                                            Box::new(Expr::Lit(Datum::Bool(true))),
                                                            Box::new(Whens::Nil),
                                                        ),
                                                    ),
                                                    Box::new(Expr::Lit(Datum::Null)),
                                                ),
                                            ),
                                        ),
                                        r,
                                    ),
                                )
                            },
                        }
                    } else if is_word(tok_at(ts, q), Kw::Over) {
                        over_at(
                            ts,
                            depth,
                            WindowFn::Rows,
                            n,
                            Expr::Lit(Datum::Null),
                            (q + 1) as usize,
                        )
                    } else {
                        Ok((Expr::CountRows, q))
                    }
                },
            }
        } else {
            aggregate_at(ts, depth, AggFn::Count, n, p)
        },
        Kw::Sum => aggregate_at(ts, depth, AggFn::Sum, n, p),
        Kw::Min => aggregate_at(ts, depth, AggFn::Min, n, p),
        Kw::Max => aggregate_at(ts, depth, AggFn::Max, n, p),
        Kw::Nextval => {
            match sequence_text_at(ts, p) {
                Err(f) => Err(f),
                Ok((name, q)) => {
                    Ok((Expr::Next(name, n), q))
                },
            }
        },
        Kw::RowNumber => ranked_at(ts, depth, WindowFn::RowNumber, n, p),
        Kw::Rank => ranked_at(ts, depth, WindowFn::Rank, n, p),
        Kw::Lag => beside_at(ts, depth, WindowFn::Lag, n, p),
        Kw::Lead => beside_at(ts, depth, WindowFn::Lead, n, p),
        Kw::Coalesce => {
            match exprs_at(ts, depth, p) {
                Err(f) => Err(f),
                Ok((list, q)) => {
                    match mark_at(ts, q, Punct::RParen) {
                        Err(f) => Err(f),
                        Ok((_, r)) => {
                            Ok((Expr::Coalesce(Box::new(list)), r))
                        },
                    }
                },
            }
        },
        Kw::Nullif => {
            match prec_at(ts, depth, 1, p) {
                Err(f) => Err(f),
                Ok((a, q)) => {
                    match mark_at(ts, q, Punct::Comma) {
                        Err(f) => Err(f),
                        Ok((_, r)) => {
                            match prec_at(ts, depth, 1, r) {
                                Err(f) => Err(f),
                                Ok((b, s)) => {
                                    match mark_at(ts, s, Punct::RParen) {
                                        Err(f) => Err(f),
                                        Ok((_, t)) => {
                                            Ok((Expr::NullIf(Box::new(a), Box::new(b)), t))
                                        },
                                    }
                                },
                            }
                        },
                    }
                },
            }
        },
        Kw::Upper => text_call_at(ts, depth, TextFn::Upper, 1, n, p),
        Kw::Lower => text_call_at(ts, depth, TextFn::Lower, 1, n, p),
        Kw::Length => text_call_at(ts, depth, TextFn::Length, 1, n, p),
        Kw::Trim => text_call_at(ts, depth, TextFn::Trim, 1, n, p),
        Kw::Substring => text_call_at(ts, depth, TextFn::Substring, 3, n, p),
        Kw::Replace => text_call_at(ts, depth, TextFn::Replace, 3, n, p),
        Kw::Position => text_call_at(ts, depth, TextFn::Position, 2, n, p),
        Kw::Lpad => text_call_at(ts, depth, TextFn::Lpad, 3, n, p),
        Kw::Rpad => text_call_at(ts, depth, TextFn::Rpad, 3, n, p),
        Kw::Repeat => text_call_at(ts, depth, TextFn::Repeat, 2, n, p),
        Kw::Concat => concat_at(ts, depth, n, p),
        _ => Err(Fault::UndefinedFunction { name: n }),
    }
}

/// The name of a sequence as a text, up to the closing parenthesis.
pub open spec fn sequence_text_at(ts: Seq<Tok>, p: usize) -> Result<(Name, usize), Fault>
{
    match tok_at(ts, p) {
        Tok::Text(s) => {
            match mark_at(ts, (p + 1) as usize, Punct::RParen) {
                Err(f) => Err(f),
                Ok((_, q)) => {
                    Ok((Name { schema: None, name: s }, q))
                },
            }
        },
        _ => Err(Fault::Syntax { at: p }),
    }
}

/// The values of a function on texts that takes `count` of them, up to the closing
/// parenthesis.
pub open spec fn text_call_at(
    ts: Seq<Tok>,
    depth: u32,
    f: TextFn,
    count: u8,
    n: usize,
    p: usize,
) -> Result<(Expr, usize), Fault>
    decreases depth, 58int, 0int,
{
    match prec_at(ts, depth, 1, p) {
        Err(f) => Err(f),
        Ok((a, q)) => {
            if count == 1 {
                match mark_at(ts, q, Punct::RParen) {
                    Err(f) => Err(f),
                    Ok((_, r)) => {
                        Ok(
                            (
                                Expr::Call(
                                    f,
                                    n,
                                    Box::new(a),
                                    Box::new(Expr::Lit(Datum::Null)),
                                    Box::new(Expr::Lit(Datum::Null)),
                                ),
                                r,
                            ),
                        )
                    },
                }
            } else {
                match mark_at(ts, q, Punct::Comma) {
                    Err(f) => Err(f),
                    Ok((_, r)) => {
                        match prec_at(ts, depth, 1, r) {
                            Err(f) => Err(f),
                            Ok((b, s)) => {
                                if count == 2 {
                                    match mark_at(ts, s, Punct::RParen) {
                                        Err(f) => Err(f),
                                        Ok((_, t)) => {
                                            Ok(
                                                (
                                                    Expr::Call(
                                                        f,
                                                        n,
                                                        Box::new(a),
                                                        Box::new(b),
                                                        Box::new(Expr::Lit(Datum::Null)),
                                                    ),
                                                    t,
                                                ),
                                            )
                                        },
                                    }
                                } else {
                                    match mark_at(ts, s, Punct::Comma) {
                                        Err(f) => Err(f),
                                        Ok((_, t)) => {
                                            match prec_at(ts, depth, 1, t) {
                                                Err(f) => Err(f),
                                                Ok((c, u)) => {
                                                    match mark_at(ts, u, Punct::RParen) {
                                                        Err(f) => Err(f),
                                                        Ok((_, v)) => {
                                                            Ok(
                                                                (
                                                                    Expr::Call(
                                                                        f,
                                                                        n,
                                                                        Box::new(a),
                                                                        Box::new(b),
                                                                        Box::new(c),
                                                                    ),
                                                                    v,
                                                                ),
                                                            )
                                                        },
                                                    }
                                                },
                                            }
                                        },
                                    }
                                }
                            },
                        }
                    },
                }
            }
        },
    }
}

/// The values of a concatenation, up to the closing parenthesis.
pub open spec fn concat_at(
    ts: Seq<Tok>,
    depth: u32,
    n: usize,
    p: usize,
) -> Result<(Expr, usize), Fault>
    decreases depth, 58int, ts.len() - p,
{
    match prec_at(ts, depth, 1, p) {
        Err(f) => Err(f),
        Ok((a, q)) => {
            if tok_at(ts, q) == Tok::Mark(Punct::Comma) && beyond(ts, p, (q + 1) as usize) {
                match concat_at(ts, depth, n, (q + 1) as usize) {
                    Err(f) => Err(f),
                    Ok((b, r)) => {
                        Ok(
                            (
                                Expr::Call(
                                    TextFn::Concat,
                                    n,
                                    Box::new(a),
                                    Box::new(b),
                                    Box::new(Expr::Lit(Datum::Null)),
                                ),
                                r,
                            ),
                        )
                    },
                }
            } else {
                match mark_at(ts, q, Punct::RParen) {
                    Err(f) => Err(f),
                    Ok((_, r)) => {
                        Ok(
                            (
                                Expr::Call(
                                    TextFn::Concat,
                                    n,
                                    Box::new(a),
                                    Box::new(Expr::Lit(Datum::Null)),
                                    Box::new(Expr::Lit(Datum::Null)),
                                ),
                                r,
                            ),
                        )
                    },
                }
            }
        },
    }
}

/// The argument of an aggregate function, and what follows its closing parenthesis.
pub open spec fn aggregate_at(
    ts: Seq<Tok>,
    depth: u32,
    f: AggFn,
    n: usize,
    p: usize,
) -> Result<(Expr, usize), Fault>
    decreases depth, 58int, 0int,
{
    if is_word(tok_at(ts, p), Kw::Distinct) {
        match prec_at(ts, depth, 1, (p + 1) as usize) {
            Err(f) => Err(f),
            Ok((e, q)) => {
                match mark_at(ts, q, Punct::RParen) {
                    Err(f) => Err(f),
                    Ok((_, r)) => {
                        if is_word(tok_at(ts, r), Kw::Filter) {
                            match filter_at(ts, depth, (r + 1) as usize) {
                                Err(f) => Err(f),
                                Ok((c, s)) => {
                                    Ok(
                                        (
                                            Expr::Agg(
                                                f,
                                                true,
                                                Box::new(
                                                    Expr::Case(
                                                        Box::new(
                                                            Whens::Cons(
                                                                Box::new(c),
                                                                Box::new(e),
                                                                Box::new(Whens::Nil),
                                                            ),
                                                        ),
                                                        Box::new(Expr::Lit(Datum::Null)),
                                                    ),
                                                ),
                                            ),
                                            s,
                                        ),
                                    )
                                },
                            }
                        } else {
                            Ok((Expr::Agg(f, true, Box::new(e)), r))
                        }
                    },
                }
            },
        }
    } else {
        match prec_at(ts, depth, 1, p) {
            Err(f) => Err(f),
            Ok((e, q)) => {
                match mark_at(ts, q, Punct::RParen) {
                    Err(f) => Err(f),
                    Ok((_, r)) => {
                        if is_word(tok_at(ts, r), Kw::Filter) {
                            match filter_at(ts, depth, (r + 1) as usize) {
                                Err(f) => Err(f),
                                Ok((c, s)) => {
                                    Ok(
                                        (
                                            Expr::Agg(
                                                f,
                                                false,
                                                Box::new(
                                                    Expr::Case(
                                                        Box::new(
                                                            Whens::Cons(
                                                                Box::new(c),
                                                                Box::new(e),
                                                                Box::new(Whens::Nil),
                                                            ),
                                                        ),
                                                        Box::new(Expr::Lit(Datum::Null)),
                                                    ),
                                                ),
                                            ),
                                            s,
                                        ),
                                    )
                                },
                            }
                        } else if is_word(tok_at(ts, r), Kw::Over) {
                            over_at(ts, depth, WindowFn::Agg(f), n, e, (r + 1) as usize)
                        } else {
                            Ok((Expr::Agg(f, false, Box::new(e)), r))
                        }
                    },
                }
            },
        }
    }
}

/// The condition on the rows of an aggregate, behind the word `FILTER`.
pub open spec fn filter_at(ts: Seq<Tok>, depth: u32, p: usize) -> Result<(Expr, usize), Fault>
    decreases depth, 57int, 0int,
{
    match mark_at(ts, p, Punct::LParen) {
        Err(f) => Err(f),
        Ok((_, q)) => {
            match word_at(ts, q, Kw::Where) {
                Err(f) => Err(f),
                Ok((_, r)) => {
                    match prec_at(ts, depth, 1, r) {
                        Err(f) => Err(f),
                        Ok((c, s)) => {
                            match mark_at(ts, s, Punct::RParen) {
                                Err(f) => Err(f),
                                Ok((_, t)) => {
                                    Ok((c, t))
                                },
                            }
                        },
                    }
                },
            }
        },
    }
}

/// A window function without an argument, behind its opening parenthesis.
pub open spec fn ranked_at(
    ts: Seq<Tok>,
    depth: u32,
    f: WindowFn,
    n: usize,
    p: usize,
) -> Result<(Expr, usize), Fault>
    decreases depth, 58int, 0int,
{
    match mark_at(ts, p, Punct::RParen) {
        Err(f) => Err(f),
        Ok((_, q)) => {
            match word_at(ts, q, Kw::Over) {
                Err(f) => Err(f),
                Ok((_, r)) => {
                    over_at(ts, depth, f, n, Expr::Lit(Datum::Null), r)
                },
            }
        },
    }
}

/// A window function of one argument, behind its opening parenthesis.
pub open spec fn beside_at(
    ts: Seq<Tok>,
    depth: u32,
    f: WindowFn,
    n: usize,
    p: usize,
) -> Result<(Expr, usize), Fault>
    decreases depth, 58int, 0int,
{
    match prec_at(ts, depth, 1, p) {
        Err(f) => Err(f),
        Ok((e, q)) => {
            match mark_at(ts, q, Punct::RParen) {
                Err(f) => Err(f),
                Ok((_, r)) => {
                    match word_at(ts, r, Kw::Over) {
                        Err(f) => Err(f),
                        Ok((_, s)) => {
                            over_at(ts, depth, f, n, e, s)
                        },
                    }
                },
            }
        },
    }
}

/// The window of a function, behind the word `OVER`.
pub open spec fn over_at(
    ts: Seq<Tok>,
    depth: u32,
    f: WindowFn,
    n: usize,
    arg: Expr,
    p: usize,
) -> Result<(Expr, usize), Fault>
    decreases depth, 57int, 1int,
{
    match mark_at(ts, p, Punct::LParen) {
        Err(f) => Err(f),
        Ok((_, q)) => {
            match partition_at(ts, depth, q) {
                Err(f) => Err(f),
                Ok((partition, r)) => {
                    if is_word(tok_at(ts, r), Kw::Order) {
                        match word_at(ts, (r + 1) as usize, Kw::By) {
                            Err(f) => Err(f),
                            Ok((_, s)) => {
                                match orders_at(ts, depth, s) {
                                    Err(f) => Err(f),
                                    Ok((orders, t)) => {
                                        match mark_at(ts, t, Punct::RParen) {
                                            Err(f) => Err(f),
                                            Ok((_, u)) => {
                                                Ok(
                                                    (
                                                        Expr::Window(
                                                            f,
                                                            n,
                                                            Box::new(
                                                                Over { arg, partition, orders },
                                                            ),
                                                        ),
                                                        u,
                                                    ),
                                                )
                                            },
                                        }
                                    },
                                }
                            },
                        }
                    } else {
                        match mark_at(ts, r, Punct::RParen) {
                            Err(f) => Err(f),
                            Ok((_, s)) => {
                                Ok(
                                    (
                                        Expr::Window(
                                            f,
                                            n,
                                            Box::new(Over { arg, partition, orders: Orders::Nil }),
                                        ),
                                        s,
                                    ),
                                )
                            },
                        }
                    }
                },
            }
        },
    }
}

/// The values that the rows of a window share.
pub open spec fn partition_at(ts: Seq<Tok>, depth: u32, p: usize) -> Result<(Exprs, usize), Fault>
    decreases depth, 57int, 0int,
{
    if is_word(tok_at(ts, p), Kw::Partition) {
        match word_at(ts, (p + 1) as usize, Kw::By) {
            Err(f) => Err(f),
            Ok((_, q)) => {
                exprs_at(ts, depth, q)
            },
        }
    } else {
        Ok((Exprs::Nil, p))
    }
}

/// A case expression behind the word `CASE`.
pub open spec fn case_at(ts: Seq<Tok>, depth: u32, p: usize) -> Result<(Expr, usize), Fault>
    decreases depth, 64int, 0int,
{
    if is_word(tok_at(ts, p), Kw::When) {
        conditions_at(ts, depth, p)
    } else {
        match prec_at(ts, depth, 1, p) {
            Err(f) => Err(f),
            Ok((x, q)) => {
                match whens_at(ts, depth, q) {
                    Err(f) => Err(f),
                    Ok((whens, r)) => {
                        match condition_at(ts, depth, Kw::Else, r) {
                            Err(f) => Err(f),
                            Ok((otherwise, s)) => {
                                match word_at(ts, s, Kw::End) {
                                    Err(f) => Err(f),
                                    Ok((_, t)) => {
                                        if otherwise.0 {
                                            Ok(
                                                (
                                                    Expr::Switch(
                                                        Box::new(x),
                                                        Box::new(whens),
                                                        Box::new(otherwise.1),
                                                    ),
                                                    t,
                                                ),
                                            )
                                        } else {
                                            Ok(
                                                (
                                                    Expr::Switch(
                                                        Box::new(x),
                                                        Box::new(whens),
                                                        Box::new(Expr::Lit(Datum::Null)),
                                                    ),
                                                    t,
                                                ),
                                            )
                                        }
                                    },
                                }
                            },
                        }
                    },
                }
            },
        }
    }
}

/// The conditions of a case expression up to its end.
pub open spec fn conditions_at(ts: Seq<Tok>, depth: u32, p: usize) -> Result<(Expr, usize), Fault>
    decreases depth, 63int, 0int,
{
    match whens_at(ts, depth, p) {
        Err(f) => Err(f),
        Ok((whens, q)) => {
            match condition_at(ts, depth, Kw::Else, q) {
                Err(f) => Err(f),
                Ok((otherwise, r)) => {
                    match word_at(ts, r, Kw::End) {
                        Err(f) => Err(f),
                        Ok((_, s)) => {
                            if otherwise.0 {
                                Ok((Expr::Case(Box::new(whens), Box::new(otherwise.1)), s))
                            } else {
                                Ok(
                                    (
                                        Expr::Case(
                                            Box::new(whens),
                                            Box::new(Expr::Lit(Datum::Null)),
                                        ),
                                        s,
                                    ),
                                )
                            }
                        },
                    }
                },
            }
        },
    }
}

/// The branches of a case expression.
pub open spec fn whens_at(ts: Seq<Tok>, depth: u32, p: usize) -> Result<(Whens, usize), Fault>
    decreases depth, 55int, ts.len() - p,
{
    match word_at(ts, p, Kw::When) {
        Err(f) => Err(f),
        Ok((_, q)) => {
            match prec_at(ts, depth, 1, q) {
                Err(f) => Err(f),
                Ok((condition, r)) => {
                    match word_at(ts, r, Kw::Then) {
                        Err(f) => Err(f),
                        Ok((_, s)) => {
                            match prec_at(ts, depth, 1, s) {
                                Err(f) => Err(f),
                                Ok((result, t)) => {
                                    if is_word(tok_at(ts, t), Kw::When) && beyond(ts, p, t) {
                                        match whens_at(ts, depth, t) {
                                            Err(f) => Err(f),
                                            Ok((rest, u)) => {
                                                Ok(
                                                    (
                                                        Whens::Cons(
                                                            Box::new(condition),
                                                            Box::new(result),
                                                            Box::new(rest),
                                                        ),
                                                        u,
                                                    ),
                                                )
                                            },
                                        }
                                    } else {
                                        Ok(
                                            (
                                                Whens::Cons(
                                                    Box::new(condition),
                                                    Box::new(result),
                                                    Box::new(Whens::Nil),
                                                ),
                                                t,
                                            ),
                                        )
                                    }
                                },
                            }
                        },
                    }
                },
            }
        },
    }
}

/// An insertion behind the word `INSERT`.
pub open spec fn insert_at(ts: Seq<Tok>, p: usize) -> Result<(Stmt, usize), Fault>
{
    match word_at(ts, p, Kw::Into) {
        Err(f) => Err(f),
        Ok((_, q)) => {
            match name_at(ts, q) {
                Err(f) => Err(f),
                Ok((table, r)) => {
                    match insert_columns_at(ts, r) {
                        Err(f) => Err(f),
                        Ok((columns, s)) => {
                            if is_word(tok_at(ts, s), Kw::Default) {
                                match word_at(ts, (s + 1) as usize, Kw::Values) {
                                    Err(f) => Err(f),
                                    Ok((_, t)) => {
                                        Ok(
                                            (
                                                Stmt::Insert(
                                                    table,
                                                    Box::new(columns),
                                                    Box::new(Feed::Fillers),
                                                ),
                                                t,
                                            ),
                                        )
                                    },
                                }
                            } else if is_word(tok_at(ts, s), Kw::Values) {
                                match expr_rows_at(ts, MAX_DEPTH, (s + 1) as usize) {
                                    Err(f) => Err(f),
                                    Ok((rows, t)) => {
                                        Ok(
                                            (
                                                Stmt::Insert(
                                                    table,
                                                    Box::new(columns),
                                                    Box::new(Feed::Values(Box::new(rows))),
                                                ),
                                                t,
                                            ),
                                        )
                                    },
                                }
                            } else {
                                match query_at(ts, MAX_DEPTH, s) {
                                    Err(f) => Err(f),
                                    Ok((feed, t)) => {
                                        Ok(
                                            (
                                                Stmt::Insert(
                                                    table,
                                                    Box::new(columns),
                                                    Box::new(Feed::Query(Box::new(feed))),
                                                ),
                                                t,
                                            ),
                                        )
                                    },
                                }
                            }
                        },
                    }
                },
            }
        },
    }
}

/// The columns that an insertion names, if it does.
pub open spec fn insert_columns_at(ts: Seq<Tok>, p: usize) -> Result<(Idents, usize), Fault>
{
    if tok_at(ts, p) == Tok::Mark(Punct::LParen) && !is_word(tok_at(ts, (p + 1) as usize), Kw::Select) && !is_word(
        tok_at(ts, (p + 1) as usize),
        Kw::Values,
    ) {
        ident_list_at(ts, p)
    } else {
        Ok((Idents::Nil, p))
    }
}

/// An update behind the word `UPDATE`.
pub open spec fn update_at(ts: Seq<Tok>, p: usize) -> Result<(Stmt, usize), Fault>
{
    match name_at(ts, p) {
        Err(f) => Err(f),
        Ok((table, q)) => {
            match word_at(ts, q, Kw::SetTo) {
                Err(f) => Err(f),
                Ok((_, r)) => {
                    match assigns_at(ts, r) {
                        Err(f) => Err(f),
                        Ok((assigns, s)) => {
                            match condition_at(ts, MAX_DEPTH, Kw::Where, s) {
                                Err(f) => Err(f),
                                Ok((filter, t)) => {
                                    Ok(
                                        (
                                            Stmt::Update(
                                                table,
                                                Box::new(assigns),
                                                Box::new(filter.1),
                                            ),
                                            t,
                                        ),
                                    )
                                },
                            }
                        },
                    }
                },
            }
        },
    }
}

/// Assignments with commas between them.
pub open spec fn assigns_at(ts: Seq<Tok>, p: usize) -> Result<(Assigns, usize), Fault>
    decreases ts.len() - p,
{
    match ident_at(ts, p) {
        Err(f) => Err(f),
        Ok((column, q)) => {
            match mark_at(ts, q, Punct::Eq) {
                Err(f) => Err(f),
                Ok((_, r)) => {
                    match prec_at(ts, MAX_DEPTH, 1, r) {
                        Err(f) => Err(f),
                        Ok((value, s)) => {
                            if tok_at(ts, s) == Tok::Mark(Punct::Comma)
                                && beyond(ts, p, (s + 1) as usize)
                            {
                                match assigns_at(ts, (s + 1) as usize) {
                                    Err(f) => Err(f),
                                    Ok((rest, t)) => {
                                        Ok(
                                            (
                                                Assigns::Cons(
                                                    column,
                                                    Box::new(value),
                                                    Box::new(rest),
                                                ),
                                                t,
                                            ),
                                        )
                                    },
                                }
                            } else {
                                Ok(
                                    (
                                        Assigns::Cons(
                                            column,
                                            Box::new(value),
                                            Box::new(Assigns::Nil),
                                        ),
                                        s,
                                    ),
                                )
                            }
                        },
                    }
                },
            }
        },
    }
}

/// A deletion behind the word `DELETE`.
pub open spec fn delete_at(ts: Seq<Tok>, p: usize) -> Result<(Stmt, usize), Fault>
{
    match word_at(ts, p, Kw::From) {
        Err(f) => Err(f),
        Ok((_, q)) => {
            match name_at(ts, q) {
                Err(f) => Err(f),
                Ok((table, r)) => {
                    match condition_at(ts, MAX_DEPTH, Kw::Where, r) {
                        Err(f) => Err(f),
                        Ok((filter, s)) => {
                            Ok((Stmt::Delete(table, Box::new(filter.1)), s))
                        },
                    }
                },
            }
        },
    }
}

/// An insertion, with what it does with rows that agree with one that is there.
pub open spec fn on_conflict_at(ts: Seq<Tok>, stmt: Stmt, p: usize) -> Result<(Stmt, usize), Fault>
{
    if is_word(tok_at(ts, p), Kw::On) {
        match word_at(ts, (p + 1) as usize, Kw::Conflict) {
            Err(f) => Err(f),
            Ok((_, q)) => {
                match conflict_column_at(ts, q) {
                    Err(f) => Err(f),
                    Ok((column, r)) => {
                        match word_at(ts, r, Kw::Do) {
                            Err(f) => Err(f),
                            Ok((_, s)) => {
                                match conflict_action_at(ts, column, s) {
                                    Err(f) => Err(f),
                                    Ok((action, t)) => {
                                        match stmt {
                                            Stmt::Insert(n, names, feed) => Ok(
                                                (Stmt::Upsert(n, names, feed, Box::new(action)), t),
                                            ),
                                            _ => Err(Fault::Syntax { at: p }),
                                        }
                                    },
                                }
                            },
                        }
                    },
                }
            },
        }
    } else {
        Ok((stmt, p))
    }
}

/// The column in which rows may agree, if it is named.
pub open spec fn conflict_column_at(ts: Seq<Tok>, p: usize) -> Result<(Option<usize>, usize), Fault>
{
    if tok_at(ts, p) == Tok::Mark(Punct::LParen) {
        match ident_at(ts, (p + 1) as usize) {
            Err(f) => Err(f),
            Ok((n, q)) => {
                match mark_at(ts, q, Punct::RParen) {
                    Err(f) => Err(f),
                    Ok((_, r)) => {
                        Ok((Some(n), r))
                    },
                }
            },
        }
    } else {
        Ok((None, p))
    }
}

/// What is done with a row that agrees with one that is there.
pub open spec fn conflict_action_at(
    ts: Seq<Tok>,
    column: Option<usize>,
    p: usize,
) -> Result<(Conflict, usize), Fault>
{
    if is_word(tok_at(ts, p), Kw::Nothing) {
        Ok((Conflict::Nothing(column), (p + 1) as usize))
    } else {
        match word_at(ts, p, Kw::Update) {
            Err(f) => Err(f),
            Ok((_, q)) => {
                match word_at(ts, q, Kw::SetTo) {
                    Err(f) => Err(f),
                    Ok((_, r)) => {
                        match assigns_at(ts, r) {
                            Err(f) => Err(f),
                            Ok((assigns, s)) => {
                                match condition_at(ts, MAX_DEPTH, Kw::Where, s) {
                                    Err(f) => Err(f),
                                    Ok((filter, t)) => {
                                        match column {
                                            Some(n) => Ok(
                                                (
                                                    Conflict::Update(
                                                        n,
                                                        Box::new(assigns),
                                                        Box::new(filter.1),
                                                    ),
                                                    t,
                                                ),
                                            ),
                                            None => Err(Fault::Syntax { at: p }),
                                        }
                                    },
                                }
                            },
                        }
                    },
                }
            },
        }
    }
}

/// A statement that changes rows, with what it gives back of them.
pub open spec fn returning_at(ts: Seq<Tok>, stmt: Stmt, p: usize) -> Result<(Stmt, usize), Fault>
{
    if is_word(tok_at(ts, p), Kw::Returning) {
        match items_at(ts, MAX_DEPTH, (p + 1) as usize) {
            Err(f) => Err(f),
            Ok((items, q)) => {
                Ok((Stmt::Returning(Box::new(stmt), Box::new(items)), q))
            },
        }
    } else {
        Ok((stmt, p))
    }
}

/// What the word `CREATE` opens.
pub open spec fn create_at(ts: Seq<Tok>, p: usize) -> Result<(Stmt, usize), Fault>
{
    match tok_at(ts, p) {
        Tok::Word(Kw::Table, _) => create_table_at(ts, (p + 1) as usize),
        Tok::Word(Kw::Temp, _) => {
            match word_at(ts, (p + 1) as usize, Kw::Table) {
                Err(f) => Err(f),
                Ok((_, q)) => {
                    create_table_at(ts, q)
                },
            }
        },
        Tok::Word(Kw::Temporary, _) => {
            match word_at(ts, (p + 1) as usize, Kw::Table) {
                Err(f) => Err(f),
                Ok((_, q)) => {
                    create_table_at(ts, q)
                },
            }
        },
        Tok::Word(Kw::Index, _) => create_index_at(ts, (p + 1) as usize),
        Tok::Word(Kw::Schema, _) => create_schema_at(ts, (p + 1) as usize),
        Tok::Word(Kw::Sequence, _) => {
            match name_at(ts, (p + 1) as usize) {
                Err(f) => Err(f),
                Ok((n, q)) => {
                    Ok((Stmt::CreateSequence(n), q))
                },
            }
        },
        Tok::Word(Kw::Role, _) => create_role_at(ts, (p + 1) as usize),
        Tok::Word(Kw::User, _) => create_role_at(ts, (p + 1) as usize),
        Tok::Word(Kw::Type, _) => {
            match ident_at(ts, (p + 1) as usize) {
                Err(f) => Err(f),
                Ok((n, q)) => {
                    Ok((Stmt::Define(Box::new(Def::Type(n))), q))
                },
            }
        },
        Tok::Word(Kw::Cast, _) => create_cast_at(ts, (p + 1) as usize),
        Tok::Word(Kw::Function, _) => create_function_at(ts, (p + 1) as usize),
        Tok::Word(Kw::Transform, _) => Err(Fault::Malformed { tag: Tag::CreateTransform }),
        _ => Err(Fault::Syntax { at: p }),
    }
}

/// A new schema and its tables.
pub open spec fn create_schema_at(ts: Seq<Tok>, p: usize) -> Result<(Stmt, usize), Fault>
{
    match schema_name_at(ts, p) {
        Err(f) => Err(f),
        Ok((n, q)) => {
            match schema_tables_at(ts, q) {
                Err(f) => Err(f),
                Ok((tables, r)) => {
                    Ok((Stmt::CreateSchema(n, Box::new(tables)), r))
                },
            }
        },
    }
}

/// The name of a new schema: its own, that of its owner, or nothing for that of the
/// user.
pub open spec fn schema_name_at(ts: Seq<Tok>, p: usize) -> Result<(Option<usize>, usize), Fault>
{
    if is_word(tok_at(ts, p), Kw::Authorization) {
        schema_owner_at(ts, (p + 1) as usize)
    } else {
        match ident_at(ts, p) {
            Err(f) => Err(f),
            Ok((n, q)) => {
                if is_word(tok_at(ts, q), Kw::Authorization) {
                    match schema_owner_at(ts, (q + 1) as usize) {
                        Err(f) => Err(f),
                        Ok((_, r)) => {
                            Ok((Some(n), r))
                        },
                    }
                } else {
                    Ok((Some(n), q))
                }
            },
        }
    }
}

/// The owner of a new schema, or nothing for the user.
pub open spec fn schema_owner_at(ts: Seq<Tok>, p: usize) -> Result<(Option<usize>, usize), Fault>
{
    if is_word(tok_at(ts, p), Kw::CurrentUser) || is_word(tok_at(ts, p), Kw::SessionUser) || is_word(
        tok_at(ts, p),
        Kw::CurrentRole,
    ) {
        Ok((None, (p + 1) as usize))
    } else {
        match ident_at(ts, p) {
            Err(f) => Err(f),
            Ok((n, q)) => {
                Ok((Some(n), q))
            },
        }
    }
}

/// The tables that are made together with a schema.
pub open spec fn schema_tables_at(ts: Seq<Tok>, p: usize) -> Result<(TableDefs, usize), Fault>
    decreases ts.len() - p,
{
    if is_word(tok_at(ts, p), Kw::Create) && is_word(tok_at(ts, (p + 1) as usize), Kw::Table) {
        match create_table_at(ts, (p + 2) as usize) {
            Err(f) => Err(f),
            Ok((s, q)) => {
                match s {
                    Stmt::CreateTable(n, quiet, cs, parent) => if beyond(ts, p, q) {
                        match schema_tables_at(ts, q) {
                            Err(f) => Err(f),
                            Ok((rest, r)) => {
                                Ok((TableDefs::Cons(n, quiet, cs, parent, Box::new(rest)), r))
                            },
                        }
                    } else {
                        Ok((TableDefs::Cons(n, quiet, cs, parent, Box::new(TableDefs::Nil)), q))
                    },
                    _ => Err(Fault::Syntax { at: p }),
                }
            },
        }
    } else {
        Ok((TableDefs::Nil, p))
    }
}

/// The name of a type.
pub open spec fn type_word_at(ts: Seq<Tok>, p: usize) -> Result<(usize, usize), Fault>
{
    match tok_at(ts, p) {
        Tok::Word(_, n) => Ok((n, (p + 1) as usize)),
        _ => Err(Fault::Syntax { at: p }),
    }
}

/// Types with commas between them, up to a closing parenthesis.
pub open spec fn type_words_at(ts: Seq<Tok>, p: usize) -> Result<(Idents, usize), Fault>
    decreases ts.len() - p,
{
    if tok_at(ts, p) == Tok::Mark(Punct::RParen) {
        Ok((Idents::Nil, (p + 1) as usize))
    } else {
        match type_word_at(ts, p) {
            Err(f) => Err(f),
            Ok((n, q)) => {
                if tok_at(ts, q) == Tok::Mark(Punct::Comma) && beyond(ts, p, (q + 1) as usize) {
                    match type_words_at(ts, (q + 1) as usize) {
                        Err(f) => Err(f),
                        Ok((rest, r)) => {
                            Ok((Idents::Cons(n, Box::new(rest)), r))
                        },
                    }
                } else {
                    match mark_at(ts, q, Punct::RParen) {
                        Err(f) => Err(f),
                        Ok((_, r)) => {
                            Ok((Idents::Cons(n, Box::new(Idents::Nil)), r))
                        },
                    }
                }
            },
        }
    }
}

/// The name of a function and the types of its values.
pub open spec fn signature_at(ts: Seq<Tok>, p: usize) -> Result<(Signature, usize), Fault>
{
    match ident_at(ts, p) {
        Err(f) => Err(f),
        Ok((name, q)) => {
            match mark_at(ts, q, Punct::LParen) {
                Err(f) => Err(f),
                Ok((_, r)) => {
                    match type_words_at(ts, r) {
                        Err(f) => Err(f),
                        Ok((args, s)) => {
                            Ok((Signature { name, args }, s))
                        },
                    }
                },
            }
        },
    }
}

/// A new cast.
pub open spec fn create_cast_at(ts: Seq<Tok>, p: usize) -> Result<(Stmt, usize), Fault>
{
    match mark_at(ts, p, Punct::LParen) {
        Err(f) => Err(f),
        Ok((_, q)) => {
            match type_word_at(ts, q) {
                Err(f) => Err(f),
                Ok((a, r)) => {
                    match word_at(ts, r, Kw::As) {
                        Err(f) => Err(f),
                        Ok((_, s)) => {
                            match type_word_at(ts, s) {
                                Err(f) => Err(f),
                                Ok((b, t)) => {
                                    match mark_at(ts, t, Punct::RParen) {
                                        Err(f) => Err(f),
                                        Ok((_, u)) => {
                                            if is_word(tok_at(ts, u), Kw::Without) {
                                                match word_at(
                                                    ts,
                                                    (u + 1) as usize,
                                                    Kw::Function,
                                                ) {
                                                    Err(f) => Err(f),
                                                    Ok((_, v)) => {
                                                        match cast_use_at(ts, v) {
                                                            Err(f) => Err(f),
                                                            Ok((_, w)) => {
                                                                Ok(
                                                                    (
                                                                        Stmt::Define(
                                                                            Box::new(Def::Cast(a, b, None)),
                                                                        ),
                                                                        w,
                                                                    ),
                                                                )
                                                            },
                                                        }
                                                    },
                                                }
                                            } else {
                                                match word_at(ts, u, Kw::With) {
                                                    Err(f) => Err(f),
                                                    Ok((_, v)) => {
                                                        match word_at(ts, v, Kw::Function) {
                                                            Err(f) => Err(f),
                                                            Ok((_, w)) => {
                                                                match signature_at(ts, w) {
                                                                    Err(f) => Err(f),
                                                                    Ok((f, x)) => {
                                                                        match cast_use_at(ts, x) {
                                                                            Err(f) => Err(f),
                                                                            Ok((_, y)) => {
                                                                                Ok(
                                                                                    (
                                                                                        Stmt::Define(
                                                                                            Box::new(
                                                                                                Def::Cast(a, b, Some(Box::new(f))),
                                                                                            ),
                                                                                        ),
                                                                                        y,
                                                                                    ),
                                                                                )
                                                                            },
                                                                        }
                                                                    },
                                                                }
                                                            },
                                                        }
                                                    },
                                                }
                                            }
                                        },
                                    }
                                },
                            }
                        },
                    }
                },
            }
        },
    }
}

/// Where a cast is used without being asked for.
pub open spec fn cast_use_at(ts: Seq<Tok>, p: usize) -> Result<((), usize), Fault>
{
    if is_word(tok_at(ts, p), Kw::As) {
        if is_word(tok_at(ts, (p + 1) as usize), Kw::Implicit) || is_word(
            tok_at(ts, (p + 1) as usize),
            Kw::Assignment,
        ) {
            Ok(((), (p + 2) as usize))
        } else {
            Err(Fault::Syntax { at: p })
        }
    } else {
        Ok(((), p))
    }
}

/// A new function.
pub open spec fn create_function_at(ts: Seq<Tok>, p: usize) -> Result<(Stmt, usize), Fault>
{
    match signature_at(ts, p) {
        Err(f) => Err(f),
        Ok((f, q)) => {
            match word_at(ts, q, Kw::Returns) {
                Err(f) => Err(f),
                Ok((_, r)) => {
                    match type_word_at(ts, r) {
                        Err(f) => Err(f),
                        Ok((result, s)) => {
                            match function_parts_at(ts, s) {
                                Err(f) => Err(f),
                                Ok((_, t)) => {
                                    Ok(
                                        (
                                            Stmt::Define(
                                                Box::new(Def::Function(Box::new(f), result)),
                                            ),
                                            t,
                                        ),
                                    )
                                },
                            }
                        },
                    }
                },
            }
        },
    }
}

/// The language and the body of a function.
pub open spec fn function_parts_at(ts: Seq<Tok>, p: usize) -> Result<((), usize), Fault>
    decreases ts.len() - p,
{
    if is_word(tok_at(ts, p), Kw::Language) {
        match type_word_at(ts, (p + 1) as usize) {
            Err(f) => Err(f),
            Ok((_, q)) => {
                if beyond(ts, p, q) {
                    function_parts_at(ts, q)
                } else {
                    Ok(((), q))
                }
            },
        }
    } else if is_word(tok_at(ts, p), Kw::As) {
        match body_at(ts, (p + 1) as usize) {
            Err(f) => Err(f),
            Ok((_, q)) => {
                if beyond(ts, p, q) {
                    function_parts_at(ts, q)
                } else {
                    Ok(((), q))
                }
            },
        }
    } else {
        Ok(((), p))
    }
}

/// The body of a function, which is not read.
pub open spec fn body_at(ts: Seq<Tok>, p: usize) -> Result<((), usize), Fault>
{
    match tok_at(ts, p) {
        Tok::Text(_) => Ok(((), (p + 1) as usize)),
        Tok::Mark(Punct::Dollars) => body_end_at(ts, (p + 1) as usize),
        _ => Err(Fault::Syntax { at: p }),
    }
}

/// The rest of the body of a function.
pub open spec fn body_end_at(ts: Seq<Tok>, p: usize) -> Result<((), usize), Fault>
    decreases ts.len() - p,
{
    match tok_at(ts, p) {
        Tok::Mark(Punct::Dollars) => Ok(((), (p + 1) as usize)),
        Tok::End => Err(Fault::Syntax { at: p }),
        _ => if beyond(ts, p, (p + 1) as usize) {
            body_end_at(ts, (p + 1) as usize)
        } else {
            Err(Fault::Syntax { at: p })
        },
    }
}

/// A block of code behind the word `DO`.
pub open spec fn do_block_at(ts: Seq<Tok>, p: usize) -> Result<(Stmt, usize), Fault>
{
    match language_at(ts, p) {
        Err(f) => Err(f),
        Ok((_, q)) => {
            match mark_at(ts, q, Punct::Dollars) {
                Err(f) => Err(f),
                Ok((_, r)) => {
                    match variables_clause_at(ts, r) {
                        Err(f) => Err(f),
                        Ok((vars, s)) => {
                            match word_at(ts, s, Kw::Begin) {
                                Err(f) => Err(f),
                                Ok((_, t)) => {
                                    match actions_at(ts, MAX_DEPTH, t) {
                                        Err(f) => Err(f),
                                        Ok((actions, u)) => {
                                            match word_at(ts, u, Kw::End) {
                                                Err(f) => Err(f),
                                                Ok((_, v)) => {
                                                    match optional_semicolon_at(ts, v) {
                                                        Err(f) => Err(f),
                                                        Ok((_, w)) => {
                                                            match mark_at(ts, w, Punct::Dollars) {
                                                                Err(f) => Err(f),
                                                                Ok((_, x)) => {
                                                                    match language_at(ts, x) {
                                                                        Err(f) => Err(f),
                                                                        Ok((_, y)) => {
                                                                            Ok(
                                                                                (
                                                                                    Stmt::Do(
                                                                                        Box::new(
                                                                                            Block { vars, body: actions },
                                                                                        ),
                                                                                    ),
                                                                                    y,
                                                                                ),
                                                                            )
                                                                        },
                                                                    }
                                                                },
                                                            }
                                                        },
                                                    }
                                                },
                                            }
                                        },
                                    }
                                },
                            }
                        },
                    }
                },
            }
        },
    }
}

/// A semicolon, or nothing.
pub open spec fn optional_semicolon_at(ts: Seq<Tok>, p: usize) -> Result<((), usize), Fault>
{
    if tok_at(ts, p) == Tok::Mark(Punct::Semicolon) {
        Ok(((), (p + 1) as usize))
    } else {
        Ok(((), p))
    }
}

/// The language of a block of code, or nothing.
pub open spec fn language_at(ts: Seq<Tok>, p: usize) -> Result<((), usize), Fault>
{
    if is_word(tok_at(ts, p), Kw::Language) {
        match type_word_at(ts, (p + 1) as usize) {
            Err(f) => Err(f),
            Ok((_, q)) => {
                Ok(((), q))
            },
        }
    } else {
        Ok(((), p))
    }
}

/// The variables of a block of code.
pub open spec fn variables_clause_at(ts: Seq<Tok>, p: usize) -> Result<(Variables, usize), Fault>
{
    if is_word(tok_at(ts, p), Kw::Declare) {
        variables_at(ts, (p + 1) as usize)
    } else {
        Ok((Variables::Nil, p))
    }
}

/// Variables up to the word `BEGIN`.
pub open spec fn variables_at(ts: Seq<Tok>, p: usize) -> Result<(Variables, usize), Fault>
    decreases ts.len() - p,
{
    if is_word(tok_at(ts, p), Kw::Begin) {
        Ok((Variables::Nil, p))
    } else {
        match ident_at(ts, p) {
            Err(f) => Err(f),
            Ok((n, q)) => {
                match data_type_at(ts, q) {
                    Err(f) => Err(f),
                    Ok((ty, r)) => {
                        match first_value_at(ts, r) {
                            Err(f) => Err(f),
                            Ok((e, s)) => {
                                match mark_at(ts, s, Punct::Semicolon) {
                                    Err(f) => Err(f),
                                    Ok((_, t)) => {
                                        if beyond(ts, p, t) {
                                            match variables_at(ts, t) {
                                                Err(f) => Err(f),
                                                Ok((rest, u)) => {
                                                    Ok(
                                                        (
                                                            Variables::Cons(
                                                                n,
                                                                ty,
                                                                Box::new(e),
                                                                Box::new(rest),
                                                            ),
                                                            u,
                                                        ),
                                                    )
                                                },
                                            }
                                        } else {
                                            Err(Fault::Syntax { at: p })
                                        }
                                    },
                                }
                            },
                        }
                    },
                }
            },
        }
    }
}

/// The first value of a variable, which is null if none is given.
pub open spec fn first_value_at(ts: Seq<Tok>, p: usize) -> Result<(Expr, usize), Fault>
{
    if tok_at(ts, p) == Tok::Mark(Punct::Becomes) || tok_at(ts, p) == Tok::Mark(Punct::Eq) {
        prec_at(ts, MAX_DEPTH, 1, (p + 1) as usize)
    } else if is_word(tok_at(ts, p), Kw::Default) {
        prec_at(ts, MAX_DEPTH, 1, (p + 1) as usize)
    } else {
        Ok((Expr::Lit(Datum::Null), p))
    }
}

/// Actions up to the end of a block or of a branch.
pub open spec fn actions_at(ts: Seq<Tok>, depth: u32, p: usize) -> Result<(Actions, usize), Fault>
    decreases depth, 81int, ts.len() - p,
{
    if is_word(tok_at(ts, p), Kw::End)
        || is_word(tok_at(ts, p), Kw::Elsif)
        || is_word(tok_at(ts, p), Kw::Else)
    {
        Ok((Actions::Nil, p))
    } else {
        match action_at(ts, depth, p) {
            Err(f) => Err(f),
            Ok((a, q)) => {
                match mark_at(ts, q, Punct::Semicolon) {
                    Err(f) => Err(f),
                    Ok((_, r)) => {
                        if beyond(ts, p, r) {
                            match actions_at(ts, depth, r) {
                                Err(f) => Err(f),
                                Ok((rest, s)) => {
                                    Ok((Actions::Cons(a, Box::new(rest)), s))
                                },
                            }
                        } else {
                            Err(Fault::Syntax { at: p })
                        }
                    },
                }
            },
        }
    }
}

/// An action of a block.
pub open spec fn action_at(ts: Seq<Tok>, depth: u32, p: usize) -> Result<(Action, usize), Fault>
    decreases depth, 80int, 0int,
{
    if is_word(tok_at(ts, p), Kw::If) {
        if depth == 0 {
            Err(Fault::TooDeep)
        } else {
            match branches_at(ts, depth, (p + 1) as usize) {
                Err(f) => Err(f),
                Ok((bs, q)) => {
                    match word_at(ts, q, Kw::End) {
                        Err(f) => Err(f),
                        Ok((_, r)) => {
                            match word_at(ts, r, Kw::If) {
                                Err(f) => Err(f),
                                Ok((_, s)) => {
                                    Ok((Action::If(Box::new(bs)), s))
                                },
                            }
                        },
                    }
                },
            }
        }
    } else if is_word(tok_at(ts, p), Kw::Raise) {
        match word_at(ts, (p + 1) as usize, Kw::Notice) {
            Err(f) => Err(f),
            Ok((_, q)) => {
                match tok_at(ts, q) {
                    Tok::Text(n) => if tok_at(ts, (q + 1) as usize) == Tok::Mark(Punct::Comma) {
                        match exprs_at(ts, depth, (q + 2) as usize) {
                            Err(f) => Err(f),
                            Ok((values, r)) => {
                                Ok(
                                    (
                                        Action::Raise(
                                            Box::new(
                                                filled_format(Expr::Lit(Datum::Text(n)), values),
                                            ),
                                        ),
                                        r,
                                    ),
                                )
                            },
                        }
                    } else {
                        Ok((Action::Raise(Box::new(Expr::Lit(Datum::Text(n)))), (q + 1) as usize))
                    },
                    _ => Err(Fault::Syntax { at: q }),
                }
            },
        }
    } else {
        match ident_at(ts, p) {
            Err(f) => Err(f),
            Ok((n, q)) => {
                match mark_at(ts, q, Punct::Becomes) {
                    Err(f) => Err(f),
                    Ok((_, r)) => {
                        match prec_at(ts, depth, 1, r) {
                            Err(f) => Err(f),
                            Ok((e, s)) => {
                                Ok((Action::Assign(n, Box::new(e)), s))
                            },
                        }
                    },
                }
            },
        }
    }
}

/// The branches of an action, behind the word of the first.
pub open spec fn branches_at(ts: Seq<Tok>, depth: u32, p: usize) -> Result<(Branches, usize), Fault>
    decreases depth, 79int, ts.len() - p,
{
    if depth == 0 {
        Err(Fault::TooDeep)
    } else {
        match prec_at(ts, depth, 1, p) {
            Err(f) => Err(f),
            Ok((c, q)) => {
                match word_at(ts, q, Kw::Then) {
                    Err(f) => Err(f),
                    Ok((_, r)) => {
                        match actions_at(ts, ((depth - 1) as u32), r) {
                            Err(f) => Err(f),
                            Ok((list, s)) => {
                                if is_word(tok_at(ts, s), Kw::Elsif)
                                    && beyond(ts, p, (s + 1) as usize)
                                {
                                    match branches_at(ts, depth, (s + 1) as usize) {
                                        Err(f) => Err(f),
                                        Ok((rest, t)) => {
                                            Ok(
                                                (
                                                    Branches::When(
                                                        Box::new(c),
                                                        Box::new(list),
                                                        Box::new(rest),
                                                    ),
                                                    t,
                                                ),
                                            )
                                        },
                                    }
                                } else if is_word(tok_at(ts, s), Kw::Else) {
                                    match actions_at(ts, ((depth - 1) as u32), (s + 1) as usize) {
                                        Err(f) => Err(f),
                                        Ok((other, t)) => {
                                            Ok(
                                                (
                                                    Branches::When(
                                                        Box::new(c),
                                                        Box::new(list),
                                                        Box::new(Branches::Else(Box::new(other))),
                                                    ),
                                                    t,
                                                ),
                                            )
                                        },
                                    }
                                } else {
                                    Ok(
                                        (
                                            Branches::When(
                                                Box::new(c),
                                                Box::new(list),
                                                Box::new(Branches::Else(Box::new(Actions::Nil))),
                                            ),
                                            s,
                                        ),
                                    )
                                }
                            },
                        }
                    },
                }
            },
        }
    }
}

/// A new role: its name and options.
pub open spec fn create_role_at(ts: Seq<Tok>, p: usize) -> Result<(Stmt, usize), Fault>
{
    match ident_at(ts, p) {
        Err(f) => Err(f),
        Ok((n, q)) => {
            match role_options_at(ts, q) {
                Err(f) => Err(f),
                Ok((options, r)) => {
                    Ok((Stmt::CreateRole(n, options), r))
                },
            }
        },
    }
}

/// A new table.
pub open spec fn create_table_at(ts: Seq<Tok>, p: usize) -> Result<(Stmt, usize), Fault>
{
    match if_not_exists_at(ts, p) {
        Err(f) => Err(f),
        Ok((quiet, q)) => {
            match name_at(ts, q) {
                Err(f) => Err(f),
                Ok((n, r)) => {
                    match mark_at(ts, r, Punct::LParen) {
                        Err(f) => Err(f),
                        Ok((_, s)) => {
                            match columns_at(ts, s) {
                                Err(f) => Err(f),
                                Ok((columns, t)) => {
                                    match mark_at(ts, t, Punct::RParen) {
                                        Err(f) => Err(f),
                                        Ok((_, u)) => {
                                            if is_word(tok_at(ts, u), Kw::Inherits) {
                                                match mark_at(
                                                    ts,
                                                    (u + 1) as usize,
                                                    Punct::LParen,
                                                ) {
                                                    Err(f) => Err(f),
                                                    Ok((_, v)) => {
                                                        match name_at(ts, v) {
                                                            Err(f) => Err(f),
                                                            Ok((parent, w)) => {
                                                                match mark_at(ts, w, Punct::RParen) {
                                                                    Err(f) => Err(f),
                                                                    Ok((_, x)) => {
                                                                        Ok(
                                                                            (
                                                                                Stmt::CreateTable(
                                                                                    n,
                                                                                    quiet,
                                                                                    Box::new(columns),
                                                                                    Some(parent),
                                                                                ),
                                                                                x,
                                                                            ),
                                                                        )
                                                                    },
                                                                }
                                                            },
                                                        }
                                                    },
                                                }
                                            } else {
                                                Ok(
                                                    (
                                                        Stmt::CreateTable(
                                                            n,
                                                            quiet,
                                                            Box::new(columns),
                                                            None,
                                                        ),
                                                        u,
                                                    ),
                                                )
                                            }
                                        },
                                    }
                                },
                            }
                        },
                    }
                },
            }
        },
    }
}

/// Whether a command is to pass over what is there already.
pub open spec fn if_not_exists_at(ts: Seq<Tok>, p: usize) -> Result<(bool, usize), Fault>
{
    if is_word(tok_at(ts, p), Kw::If) {
        match word_at(ts, (p + 1) as usize, Kw::Not) {
            Err(f) => Err(f),
            Ok((_, q)) => {
                match word_at(ts, q, Kw::Exists) {
                    Err(f) => Err(f),
                    Ok((_, r)) => {
                        Ok((true, r))
                    },
                }
            },
        }
    } else {
        Ok((false, p))
    }
}

/// Whether a command is to pass over what is not there.
pub open spec fn if_exists_at(ts: Seq<Tok>, p: usize) -> Result<(bool, usize), Fault>
{
    if is_word(tok_at(ts, p), Kw::If) {
        match word_at(ts, (p + 1) as usize, Kw::Exists) {
            Err(f) => Err(f),
            Ok((_, q)) => {
                Ok((true, q))
            },
        }
    } else {
        Ok((false, p))
    }
}

/// The columns of a new table.
pub open spec fn columns_at(ts: Seq<Tok>, p: usize) -> Result<(Columns, usize), Fault>
    decreases ts.len() - p,
{
    match ident_at(ts, p) {
        Err(f) => Err(f),
        Ok((n, q)) => {
            match column_type_at(ts, q) {
                Err(f) => Err(f),
                Ok((ty, r)) => {
                    match column_options_at(
                        ts,
                        Column {
                            name: n,
                            ty: ty.0,
                            not_null: false,
                            unique: false,
                            filler: Filler::Null,
                            limit: ty.1,
                        },
                        r,
                    ) {
                        Err(f) => Err(f),
                        Ok((column, s)) => {
                            if tok_at(ts, s) == Tok::Mark(Punct::Comma)
                                && beyond(ts, p, (s + 1) as usize)
                            {
                                match columns_at(ts, (s + 1) as usize) {
                                    Err(f) => Err(f),
                                    Ok((rest, t)) => {
                                        Ok((Columns::Cons(column, Box::new(rest)), t))
                                    },
                                }
                            } else {
                                Ok((Columns::Cons(column, Box::new(Columns::Nil)), s))
                            }
                        },
                    }
                },
            }
        },
    }
}

/// The options that follow the column `column`.
pub open spec fn column_options_at(
    ts: Seq<Tok>,
    column: Column,
    p: usize,
) -> Result<(Column, usize), Fault>
    decreases ts.len() - p,
{
    match tok_at(ts, p) {
        Tok::Word(Kw::Not, _) => {
            match word_at(ts, (p + 1) as usize, Kw::Null) {
                Err(f) => Err(f),
                Ok((_, q)) => {
                    if beyond(ts, p, q) {
                        column_options_at(
                            ts,
                            Column {
                                name: column.name,
                                ty: column.ty,
                                not_null: true,
                                unique: column.unique,
                                filler: column.filler,
                                limit: column.limit,
                            },
                            q,
                        )
                    } else {
                        Err(Fault::Syntax { at: p })
                    }
                },
            }
        },
        Tok::Word(Kw::Null, _) => column_options_at(ts, column, (p + 1) as usize),
        Tok::Word(Kw::Primary, _) => {
            match word_at(ts, (p + 1) as usize, Kw::Key) {
                Err(f) => Err(f),
                Ok((_, q)) => {
                    if beyond(ts, p, q) {
                        column_options_at(
                            ts,
                            Column {
                                name: column.name,
                                ty: column.ty,
                                not_null: true,
                                unique: true,
                                filler: column.filler,
                                limit: column.limit,
                            },
                            q,
                        )
                    } else {
                        Err(Fault::Syntax { at: p })
                    }
                },
            }
        },
        Tok::Word(Kw::Unique, _) => column_options_at(
            ts,
            Column {
                name: column.name,
                ty: column.ty,
                not_null: column.not_null,
                unique: true,
                filler: column.filler,
                limit: column.limit,
            },
            (p + 1) as usize,
        ),
        Tok::Word(Kw::Default, _) => if is_word(tok_at(ts, (p + 1) as usize), Kw::Nextval) {
            match mark_at(ts, (p + 2) as usize, Punct::LParen) {
                Err(f) => Err(f),
                Ok((_, q)) => {
                    match sequence_text_at(ts, q) {
                        Err(f) => Err(f),
                        Ok((name, r)) => {
                            if beyond(ts, p, r) {
                                column_options_at(
                                    ts,
                                    Column {
                                        name: column.name,
                                        ty: column.ty,
                                        not_null: column.not_null,
                                        unique: column.unique,
                                        filler: Filler::Next(name),
                                        limit: column.limit,
                                    },
                                    r,
                                )
                            } else {
                                Err(Fault::Syntax { at: p })
                            }
                        },
                    }
                },
            }
        } else {
            match literal_at(ts, (p + 1) as usize) {
                Err(f) => Err(f),
                Ok((d, q)) => {
                    if beyond(ts, p, q) {
                        column_options_at(
                            ts,
                            Column {
                                name: column.name,
                                ty: column.ty,
                                not_null: column.not_null,
                                unique: column.unique,
                                filler: Filler::Value(d),
                                limit: column.limit,
                            },
                            q,
                        )
                    } else {
                        Err(Fault::Syntax { at: p })
                    }
                },
            }
        },
        _ => Ok((column, p)),
    }
}

/// A new index.
pub open spec fn create_index_at(ts: Seq<Tok>, p: usize) -> Result<(Stmt, usize), Fault>
{
    if is_word(tok_at(ts, p), Kw::On) {
        match name_at(ts, (p + 1) as usize) {
            Err(f) => Err(f),
            Ok((table, q)) => {
                match ident_list_at(ts, q) {
                    Err(f) => Err(f),
                    Ok((columns, r)) => {
                        Ok((Stmt::CreateIndex(table, Box::new(columns)), r))
                    },
                }
            },
        }
    } else {
        match ident_at(ts, p) {
            Err(f) => Err(f),
            Ok((_, q)) => {
                match word_at(ts, q, Kw::On) {
                    Err(f) => Err(f),
                    Ok((_, r)) => {
                        match name_at(ts, r) {
                            Err(f) => Err(f),
                            Ok((table, s)) => {
                                match ident_list_at(ts, s) {
                                    Err(f) => Err(f),
                                    Ok((columns, t)) => {
                                        Ok((Stmt::CreateIndex(table, Box::new(columns)), t))
                                    },
                                }
                            },
                        }
                    },
                }
            },
        }
    }
}

/// The options of a role, with or without `WITH` before them.
pub open spec fn role_options_at(ts: Seq<Tok>, p: usize) -> Result<(RoleOptions, usize), Fault>
{
    if is_word(tok_at(ts, p), Kw::With) {
        more_role_options_at(
            ts,
            RoleOptions { superuser: None, login: None, password: None },
            (p + 1) as usize,
        )
    } else {
        more_role_options_at(ts, RoleOptions { superuser: None, login: None, password: None }, p)
    }
}

/// The options that follow the options `o`.
pub open spec fn more_role_options_at(
    ts: Seq<Tok>,
    o: RoleOptions,
    p: usize,
) -> Result<(RoleOptions, usize), Fault>
    decreases ts.len() - p,
{
    match tok_at(ts, p) {
        Tok::Word(Kw::Superuser, _) => more_role_options_at(
            ts,
            RoleOptions { superuser: Some(true), login: o.login, password: o.password },
            (p + 1) as usize,
        ),
        Tok::Word(Kw::Nosuperuser, _) => more_role_options_at(
            ts,
            RoleOptions { superuser: Some(false), login: o.login, password: o.password },
            (p + 1) as usize,
        ),
        Tok::Word(Kw::Login, _) => more_role_options_at(
            ts,
            RoleOptions { superuser: o.superuser, login: Some(true), password: o.password },
            (p + 1) as usize,
        ),
        Tok::Word(Kw::Nologin, _) => more_role_options_at(
            ts,
            RoleOptions { superuser: o.superuser, login: Some(false), password: o.password },
            (p + 1) as usize,
        ),
        Tok::Word(Kw::Password, _) => match tok_at(ts, (p + 1) as usize) {
            Tok::Text(s) => more_role_options_at(
                ts,
                RoleOptions { superuser: o.superuser, login: o.login, password: Some(s) },
                (p + 2) as usize,
            ),
            _ => Err(Fault::Syntax { at: p }),
        },
        _ => Ok((o, p)),
    }
}

/// What the word `DROP` opens.
pub open spec fn drop_at(ts: Seq<Tok>, p: usize) -> Result<(Stmt, usize), Fault>
{
    match tok_at(ts, p) {
        Tok::Word(Kw::Table, _) => {
            match if_exists_at(ts, (p + 1) as usize) {
                Err(f) => Err(f),
                Ok((quiet, q)) => {
                    match name_at(ts, q) {
                        Err(f) => Err(f),
                        Ok((n, r)) => {
                            match cascade_at(ts, r) {
                                Err(f) => Err(f),
                                Ok((_, s)) => {
                                    Ok((Stmt::DropTable(n, quiet), s))
                                },
                            }
                        },
                    }
                },
            }
        },
        Tok::Word(Kw::Sequence, _) => {
            match if_exists_at(ts, (p + 1) as usize) {
                Err(f) => Err(f),
                Ok((quiet, q)) => {
                    match name_at(ts, q) {
                        Err(f) => Err(f),
                        Ok((n, r)) => {
                            match cascade_at(ts, r) {
                                Err(f) => Err(f),
                                Ok((_, s)) => {
                                    Ok((Stmt::DropSequence(n, quiet), s))
                                },
                            }
                        },
                    }
                },
            }
        },
        Tok::Word(Kw::Role, _) => {
            match if_exists_at(ts, (p + 1) as usize) {
                Err(f) => Err(f),
                Ok((quiet, q)) => {
                    match ident_at(ts, q) {
                        Err(f) => Err(f),
                        Ok((n, r)) => {
                            Ok((Stmt::DropRole(n, quiet), r))
                        },
                    }
                },
            }
        },
        Tok::Word(Kw::User, _) => {
            match if_exists_at(ts, (p + 1) as usize) {
                Err(f) => Err(f),
                Ok((quiet, q)) => {
                    match ident_at(ts, q) {
                        Err(f) => Err(f),
                        Ok((n, r)) => {
                            Ok((Stmt::DropRole(n, quiet), r))
                        },
                    }
                },
            }
        },
        Tok::Word(Kw::Schema, _) => {
            match if_exists_at(ts, (p + 1) as usize) {
                Err(f) => Err(f),
                Ok((quiet, q)) => {
                    match ident_at(ts, q) {
                        Err(f) => Err(f),
                        Ok((n, r)) => {
                            if is_word(tok_at(ts, r), Kw::Cascade) {
                                Ok((Stmt::DropSchema(n, quiet, true), (r + 1) as usize))
                            } else {
                                match cascade_at(ts, r) {
                                    Err(f) => Err(f),
                                    Ok((_, s)) => {
                                        Ok((Stmt::DropSchema(n, quiet, false), s))
                                    },
                                }
                            }
                        },
                    }
                },
            }
        },
        Tok::Word(Kw::Function, _) => {
            match if_exists_at(ts, (p + 1) as usize) {
                Err(f) => Err(f),
                Ok((quiet, q)) => {
                    match signature_at(ts, q) {
                        Err(f) => Err(f),
                        Ok((s, r)) => {
                            if is_word(tok_at(ts, r), Kw::Cascade) {
                                Ok(
                                    (
                                        Stmt::Define(
                                            Box::new(Def::DropFunction(Box::new(s), quiet, true)),
                                        ),
                                        (r + 1) as usize,
                                    ),
                                )
                            } else {
                                match cascade_at(ts, r) {
                                    Err(f) => Err(f),
                                    Ok((_, t)) => {
                                        Ok(
                                            (
                                                Stmt::Define(
                                                    Box::new(
                                                        Def::DropFunction(Box::new(s), quiet, false),
                                                    ),
                                                ),
                                                t,
                                            ),
                                        )
                                    },
                                }
                            }
                        },
                    }
                },
            }
        },
        Tok::Word(Kw::Owned, _) => {
            match word_at(ts, (p + 1) as usize, Kw::By) {
                Err(f) => Err(f),
                Ok((_, q)) => {
                    match ident_at(ts, q) {
                        Err(f) => Err(f),
                        Ok((n, r)) => {
                            match cascade_at(ts, r) {
                                Err(f) => Err(f),
                                Ok((_, s)) => {
                                    Ok((Stmt::DropOwned(n), s))
                                },
                            }
                        },
                    }
                },
            }
        },
        _ => Err(Fault::Syntax { at: p }),
    }
}

/// The tables of a role, which another role gets.
pub open spec fn reassign_at(ts: Seq<Tok>, p: usize) -> Result<(Stmt, usize), Fault>
{
    match word_at(ts, p, Kw::Owned) {
        Err(f) => Err(f),
        Ok((_, q)) => {
            match word_at(ts, q, Kw::By) {
                Err(f) => Err(f),
                Ok((_, r)) => {
                    match ident_at(ts, r) {
                        Err(f) => Err(f),
                        Ok((from, s)) => {
                            match word_at(ts, s, Kw::To) {
                                Err(f) => Err(f),
                                Ok((_, t)) => {
                                    match ident_at(ts, t) {
                                        Err(f) => Err(f),
                                        Ok((to, u)) => {
                                            Ok((Stmt::ReassignOwned(from, to), u))
                                        },
                                    }
                                },
                            }
                        },
                    }
                },
            }
        },
    }
}

/// The word `CASCADE` or `RESTRICT`, or nothing.
pub open spec fn cascade_at(ts: Seq<Tok>, p: usize) -> Result<((), usize), Fault>
{
    if is_word(tok_at(ts, p), Kw::Cascade) || is_word(tok_at(ts, p), Kw::Restrict) {
        Ok(((), (p + 1) as usize))
    } else {
        Ok(((), p))
    }
}

/// What the word `ALTER` opens.
pub open spec fn alter_at(ts: Seq<Tok>, p: usize) -> Result<(Stmt, usize), Fault>
{
    if is_word(tok_at(ts, p), Kw::Role) || is_word(tok_at(ts, p), Kw::User) {
        match ident_at(ts, (p + 1) as usize) {
            Err(f) => Err(f),
            Ok((n, q)) => {
                match role_options_at(ts, q) {
                    Err(f) => Err(f),
                    Ok((options, r)) => {
                        Ok((Stmt::AlterRole(n, options), r))
                    },
                }
            },
        }
    } else if is_word(tok_at(ts, p), Kw::Table) {
        match name_at(ts, (p + 1) as usize) {
            Err(f) => Err(f),
            Ok((n, q)) => {
                alteration_at(ts, n, q)
            },
        }
    } else {
        Err(Fault::Syntax { at: p })
    }
}

/// What is to be done to the columns of a table.
pub open spec fn alteration_at(ts: Seq<Tok>, n: Name, p: usize) -> Result<(Stmt, usize), Fault>
{
    if is_word(tok_at(ts, p), Kw::Add) {
        let q: usize = if is_word(
            tok_at(ts, (p + 1) as usize),
            Kw::Column,
        ) { ((p + 2) as usize) } else { ((p + 1) as usize) };
        match ident_at(ts, q) {
            Err(f) => Err(f),
            Ok((name, r)) => {
                match column_type_at(ts, r) {
                    Err(f) => Err(f),
                    Ok((ty, s)) => {
                        match column_options_at(
                            ts,
                            Column {
                                name,
                                ty: ty.0,
                                not_null: false,
                                unique: false,
                                filler: Filler::Null,
                                limit: ty.1,
                            },
                            s,
                        ) {
                            Err(f) => Err(f),
                            Ok((column, t)) => {
                                Ok((Stmt::AddColumn(n, column), t))
                            },
                        }
                    },
                }
            },
        }
    } else if is_word(tok_at(ts, p), Kw::Drop) {
        let q: usize = if is_word(
            tok_at(ts, (p + 1) as usize),
            Kw::Column,
        ) { ((p + 2) as usize) } else { ((p + 1) as usize) };
        match if_exists_at(ts, q) {
            Err(f) => Err(f),
            Ok((quiet, r)) => {
                match ident_at(ts, r) {
                    Err(f) => Err(f),
                    Ok((name, s)) => {
                        match cascade_at(ts, s) {
                            Err(f) => Err(f),
                            Ok((_, t)) => {
                                Ok((Stmt::DropColumn(n, name, quiet), t))
                            },
                        }
                    },
                }
            },
        }
    } else {
        Err(Fault::Syntax { at: p })
    }
}

/// A grant behind the word `GRANT`.
pub open spec fn grant_at(ts: Seq<Tok>, p: usize) -> Result<(Stmt, usize), Fault>
{
    match tok_at(ts, p) {
        Tok::Word(_, _) => if is_word(tok_at(ts, (p + 1) as usize), Kw::To) {
            match ident_at(ts, p) {
                Err(f) => Err(f),
                Ok((role, q)) => {
                    match word_at(ts, q, Kw::To) {
                        Err(f) => Err(f),
                        Ok((_, r)) => {
                            match ident_at(ts, r) {
                                Err(f) => Err(f),
                                Ok((member, s)) => {
                                    match admin_option_at(ts, s) {
                                        Err(f) => Err(f),
                                        Ok((admin, t)) => {
                                            match granted_by_at(ts, t) {
                                                Err(f) => Err(f),
                                                Ok((by, u)) => {
                                                    Ok(
                                                        (
                                                            Stmt::GrantRole(role, member, admin, by),
                                                            u,
                                                        ),
                                                    )
                                                },
                                            }
                                        },
                                    }
                                },
                            }
                        },
                    }
                },
            }
        } else {
            grant_on_at(ts, p)
        },
        _ => grant_on_at(ts, p),
    }
}

/// Whether a member may make others members.
pub open spec fn admin_option_at(ts: Seq<Tok>, p: usize) -> Result<(bool, usize), Fault>
{
    if is_word(tok_at(ts, p), Kw::With) {
        match word_at(ts, (p + 1) as usize, Kw::Admin) {
            Err(f) => Err(f),
            Ok((_, q)) => {
                match word_at(ts, q, Kw::Option) {
                    Err(f) => Err(f),
                    Ok((_, r)) => {
                        Ok((true, r))
                    },
                }
            },
        }
    } else {
        Ok((false, p))
    }
}

/// The role that makes another a member, if it is named.
pub open spec fn granted_by_at(ts: Seq<Tok>, p: usize) -> Result<(Option<usize>, usize), Fault>
{
    if is_word(tok_at(ts, p), Kw::Granted) {
        match word_at(ts, (p + 1) as usize, Kw::By) {
            Err(f) => Err(f),
            Ok((_, q)) => {
                match ident_at(ts, q) {
                    Err(f) => Err(f),
                    Ok((n, r)) => {
                        Ok((Some(n), r))
                    },
                }
            },
        }
    } else {
        Ok((None, p))
    }
}

/// A grant of privileges.
pub open spec fn grant_on_at(ts: Seq<Tok>, p: usize) -> Result<(Stmt, usize), Fault>
{
    match privileges_at(ts, p) {
        Err(f) => Err(f),
        Ok((privileges, q)) => {
            match word_at(ts, q, Kw::On) {
                Err(f) => Err(f),
                Ok((_, r)) => {
                    match target_at(ts, r) {
                        Err(f) => Err(f),
                        Ok((target, s)) => {
                            match word_at(ts, s, Kw::To) {
                                Err(f) => Err(f),
                                Ok((_, t)) => {
                                    match grantee_at(ts, t) {
                                        Err(f) => Err(f),
                                        Ok((grantee, u)) => {
                                            Ok((Stmt::Grant(privileges, target, grantee), u))
                                        },
                                    }
                                },
                            }
                        },
                    }
                },
            }
        },
    }
}

/// A revocation behind the word `REVOKE`.
pub open spec fn revoke_at(ts: Seq<Tok>, p: usize) -> Result<(Stmt, usize), Fault>
{
    if is_word(tok_at(ts, p), Kw::Grant) && is_word(tok_at(ts, (p + 1) as usize), Kw::Option) {
        Err(Fault::GrantOption)
    } else if is_word(tok_at(ts, p), Kw::Admin) && is_word(tok_at(ts, (p + 1) as usize), Kw::Option) {
        match word_at(ts, (p + 2) as usize, Kw::For) {
            Err(f) => Err(f),
            Ok((_, q)) => {
                revoke_role_at(ts, true, q)
            },
        }
    } else {
        match tok_at(ts, p) {
            Tok::Word(_, _) => if is_word(tok_at(ts, (p + 1) as usize), Kw::From) {
                revoke_role_at(ts, false, p)
            } else {
                revoke_on_at(ts, p)
            },
            _ => revoke_on_at(ts, p),
        }
    }
}

/// A revocation of privileges.
pub open spec fn revoke_on_at(ts: Seq<Tok>, p: usize) -> Result<(Stmt, usize), Fault>
{
    match privileges_at(ts, p) {
        Err(f) => Err(f),
        Ok((privileges, q)) => {
            match word_at(ts, q, Kw::On) {
                Err(f) => Err(f),
                Ok((_, r)) => {
                    match target_at(ts, r) {
                        Err(f) => Err(f),
                        Ok((target, s)) => {
                            match word_at(ts, s, Kw::From) {
                                Err(f) => Err(f),
                                Ok((_, t)) => {
                                    match grantee_at(ts, t) {
                                        Err(f) => Err(f),
                                        Ok((grantee, u)) => {
                                            Ok((Stmt::Revoke(privileges, target, grantee), u))
                                        },
                                    }
                                },
                            }
                        },
                    }
                },
            }
        },
    }
}

/// The end of a membership or, with `admin`, of the right to make others members.
pub open spec fn revoke_role_at(ts: Seq<Tok>, admin: bool, p: usize) -> Result<(Stmt, usize), Fault>
{
    match ident_at(ts, p) {
        Err(f) => Err(f),
        Ok((role, q)) => {
            match word_at(ts, q, Kw::From) {
                Err(f) => Err(f),
                Ok((_, r)) => {
                    match ident_at(ts, r) {
                        Err(f) => Err(f),
                        Ok((member, s)) => {
                            match granted_by_at(ts, s) {
                                Err(f) => Err(f),
                                Ok((by, t)) => {
                                    Ok((Stmt::RevokeRole(role, member, admin, by), t))
                                },
                            }
                        },
                    }
                },
            }
        },
    }
}

/// The privileges that a command is about.
pub open spec fn privileges_at(ts: Seq<Tok>, p: usize) -> Result<(Privileges, usize), Fault>
{
    if is_word(tok_at(ts, p), Kw::All) {
        if is_word(tok_at(ts, (p + 1) as usize), Kw::Privileges) {
            Ok(
                (
                    Privileges {
                        select: true,
                        insert: true,
                        update: true,
                        delete: true,
                        create: true,
                    },
                    (p + 2) as usize,
                ),
            )
        } else {
            Ok(
                (
                    Privileges {
                        select: true,
                        insert: true,
                        update: true,
                        delete: true,
                        create: true,
                    },
                    (p + 1) as usize,
                ),
            )
        }
    } else {
        more_privileges_at(
            ts,
            Privileges {
                select: false,
                insert: false,
                update: false,
                delete: false,
                create: false,
            },
            p,
        )
    }
}

/// Privileges with commas between them, beside those in `have`.
pub open spec fn more_privileges_at(
    ts: Seq<Tok>,
    have: Privileges,
    p: usize,
) -> Result<(Privileges, usize), Fault>
    decreases ts.len() - p,
{
    match privilege_at(ts, have, p) {
        Err(f) => Err(f),
        Ok((more, q)) => {
            if tok_at(ts, q) == Tok::Mark(Punct::Comma) && beyond(ts, p, (q + 1) as usize) {
                more_privileges_at(ts, more, (q + 1) as usize)
            } else {
                Ok((more, q))
            }
        },
    }
}

/// One privilege beside those in `have`.
pub open spec fn privilege_at(
    ts: Seq<Tok>,
    have: Privileges,
    p: usize,
) -> Result<(Privileges, usize), Fault>
{
    match tok_at(ts, p) {
        Tok::Word(Kw::Select, _) => Ok(
            (
                Privileges {
                    select: true,
                    insert: have.insert,
                    update: have.update,
                    delete: have.delete,
                    create: have.create,
                },
                (p + 1) as usize,
            ),
        ),
        Tok::Word(Kw::Insert, _) => Ok(
            (
                Privileges {
                    select: have.select,
                    insert: true,
                    update: have.update,
                    delete: have.delete,
                    create: have.create,
                },
                (p + 1) as usize,
            ),
        ),
        Tok::Word(Kw::Update, _) => Ok(
            (
                Privileges {
                    select: have.select,
                    insert: have.insert,
                    update: true,
                    delete: have.delete,
                    create: have.create,
                },
                (p + 1) as usize,
            ),
        ),
        Tok::Word(Kw::Delete, _) => Ok(
            (
                Privileges {
                    select: have.select,
                    insert: have.insert,
                    update: have.update,
                    delete: true,
                    create: have.create,
                },
                (p + 1) as usize,
            ),
        ),
        Tok::Word(Kw::Create, _) => Ok(
            (
                Privileges {
                    select: have.select,
                    insert: have.insert,
                    update: have.update,
                    delete: have.delete,
                    create: true,
                },
                (p + 1) as usize,
            ),
        ),
        _ => Err(Fault::Syntax { at: p }),
    }
}

/// What privileges are granted on.
pub open spec fn target_at(ts: Seq<Tok>, p: usize) -> Result<(Target, usize), Fault>
{
    if is_word(tok_at(ts, p), Kw::Schema) {
        match ident_at(ts, (p + 1) as usize) {
            Err(f) => Err(f),
            Ok((n, q)) => {
                Ok((Target::Schema(n), q))
            },
        }
    } else if is_word(tok_at(ts, p), Kw::Table) {
        match name_at(ts, (p + 1) as usize) {
            Err(f) => Err(f),
            Ok((n, q)) => {
                Ok((Target::Table(n), q))
            },
        }
    } else {
        match name_at(ts, p) {
            Err(f) => Err(f),
            Ok((n, q)) => {
                Ok((Target::Table(n), q))
            },
        }
    }
}

/// The role that privileges are granted to.
pub open spec fn grantee_at(ts: Seq<Tok>, p: usize) -> Result<(Grantee, usize), Fault>
{
    if is_word(tok_at(ts, p), Kw::CurrentUser) || is_word(tok_at(ts, p), Kw::SessionUser) {
        Ok((Grantee::CurrentUser, (p + 1) as usize))
    } else {
        match ident_at(ts, p) {
            Err(f) => Err(f),
            Ok((n, q)) => {
                Ok((Grantee::Role(n), q))
            },
        }
    }
}

/// The word `WORK` or `TRANSACTION`, or nothing.
pub open spec fn work_at(ts: Seq<Tok>, p: usize) -> Result<((), usize), Fault>
{
    if is_word(tok_at(ts, p), Kw::Work) || is_word(tok_at(ts, p), Kw::Transaction) {
        Ok(((), (p + 1) as usize))
    } else {
        Ok(((), p))
    }
}

/// The modes of a transaction, with or without commas between them.
pub open spec fn modes_at(ts: Seq<Tok>, m: TxnModes, p: usize) -> Result<(TxnModes, usize), Fault>
    decreases ts.len() - p,
{
    match tok_at(ts, p) {
        Tok::Word(Kw::Isolation, _) => {
            match word_at(ts, (p + 1) as usize, Kw::Level) {
                Err(f) => Err(f),
                Ok((_, q)) => {
                    match level_at(ts, q) {
                        Err(f) => Err(f),
                        Ok((level, r)) => {
                            if beyond(ts, p, r) {
                                more_modes_at(
                                    ts,
                                    TxnModes {
                                        isolation: Some(level),
                                        read_only: m.read_only,
                                        deferrable: m.deferrable,
                                    },
                                    r,
                                )
                            } else {
                                Err(Fault::Syntax { at: p })
                            }
                        },
                    }
                },
            }
        },
        Tok::Word(Kw::Read, _) => if is_word(tok_at(ts, (p + 1) as usize), Kw::Only) {
            more_modes_at(
                ts,
                TxnModes {
                    isolation: m.isolation,
                    read_only: Some(true),
                    deferrable: m.deferrable,
                },
                (p + 2) as usize,
            )
        } else {
            match word_at(ts, (p + 1) as usize, Kw::Write) {
                Err(f) => Err(f),
                Ok((_, q)) => {
                    if beyond(ts, p, q) {
                        more_modes_at(
                            ts,
                            TxnModes {
                                isolation: m.isolation,
                                read_only: Some(false),
                                deferrable: m.deferrable,
                            },
                            q,
                        )
                    } else {
                        Err(Fault::Syntax { at: p })
                    }
                },
            }
        },
        Tok::Word(Kw::Deferrable, _) => {
            more_modes_at(
                ts,
                TxnModes { isolation: m.isolation, read_only: m.read_only, deferrable: Some(true) },
                (p + 1) as usize,
            )
        },
        Tok::Word(Kw::Not, _) => {
            match word_at(ts, (p + 1) as usize, Kw::Deferrable) {
                Err(f) => Err(f),
                Ok((_, q)) => {
                    if beyond(ts, p, q) {
                        more_modes_at(
                            ts,
                            TxnModes {
                                isolation: m.isolation,
                                read_only: m.read_only,
                                deferrable: Some(false),
                            },
                            q,
                        )
                    } else {
                        Err(Fault::Syntax { at: p })
                    }
                },
            }
        },
        _ => Ok((m, p)),
    }
}

/// The modes that follow the modes `m`.
pub open spec fn more_modes_at(
    ts: Seq<Tok>,
    m: TxnModes,
    p: usize,
) -> Result<(TxnModes, usize), Fault>
    decreases ts.len() - p,
{
    if tok_at(ts, p) == Tok::Mark(Punct::Comma) {
        modes_at(ts, m, (p + 1) as usize)
    } else {
        Ok((m, p))
    }
}

/// An isolation level.
pub open spec fn level_at(ts: Seq<Tok>, p: usize) -> Result<(IsolationLevel, usize), Fault>
{
    if is_word(tok_at(ts, p), Kw::Serializable) {
        Ok((IsolationLevel::Serializable, (p + 1) as usize))
    } else if is_word(tok_at(ts, p), Kw::Repeatable)
        && is_word(tok_at(ts, (p + 1) as usize), Kw::Read)
    {
        Ok((IsolationLevel::SnapshotIsolation, (p + 2) as usize))
    } else if is_word(tok_at(ts, p), Kw::Snapshot)
        && is_word(tok_at(ts, (p + 1) as usize), Kw::Isolation)
    {
        Ok((IsolationLevel::SnapshotIsolation, (p + 2) as usize))
    } else if is_word(tok_at(ts, p), Kw::Read)
        && (is_word(tok_at(ts, (p + 1) as usize), Kw::Committed) || is_word(tok_at(ts, (p + 1) as usize), Kw::Uncommitted))
    {
        Ok((IsolationLevel::ReadCommitted, (p + 2) as usize))
    } else {
        Err(Fault::Syntax { at: p })
    }
}

/// The identifier of a prepared transaction that is to be ended.
pub open spec fn prepared_end_at(ts: Seq<Tok>, p: usize) -> Result<(Stmt, usize), Fault>
{
    match tok_at(ts, p) {
        Tok::Text(n) => Ok((Stmt::EndPrepared(n), (p + 1) as usize)),
        _ => Err(Fault::Syntax { at: p }),
    }
}

/// A rollback behind the word `ROLLBACK`.
pub open spec fn rollback_at(ts: Seq<Tok>, p: usize) -> Result<(Stmt, usize), Fault>
{
    match work_at(ts, p) {
        Err(f) => Err(f),
        Ok((_, q)) => {
            if is_word(tok_at(ts, q), Kw::To) {
                if is_word(tok_at(ts, (q + 1) as usize), Kw::Savepoint) {
                    match ident_at(ts, (q + 2) as usize) {
                        Err(f) => Err(f),
                        Ok((n, r)) => {
                            Ok((Stmt::RollbackTo(n), r))
                        },
                    }
                } else {
                    match ident_at(ts, (q + 1) as usize) {
                        Err(f) => Err(f),
                        Ok((n, r)) => {
                            Ok((Stmt::RollbackTo(n), r))
                        },
                    }
                }
            } else {
                Ok((Stmt::Rollback, q))
            }
        },
    }
}

/// A setting and its new value.
pub open spec fn assign_at(ts: Seq<Tok>, local: bool, p: usize) -> Result<(Stmt, usize), Fault>
{
    match ident_at(ts, p) {
        Err(f) => Err(f),
        Ok((n, q)) => {
            if tok_at(ts, q) == Tok::Mark(Punct::Eq) || is_word(tok_at(ts, q), Kw::To) {
                match setting_at(ts, (q + 1) as usize) {
                    Err(f) => Err(f),
                    Ok((value, r)) => {
                        Ok((Stmt::Assign(local, n, value), r))
                    },
                }
            } else {
                Err(Fault::Syntax { at: q })
            }
        },
    }
}

/// The value that a setting is given.
pub open spec fn setting_at(ts: Seq<Tok>, p: usize) -> Result<(Setting, usize), Fault>
{
    match tok_at(ts, p) {
        Tok::Word(k, n) => if k == Kw::Default {
            Ok((Setting::Default, (p + 1) as usize))
        } else if tok_at(ts, (p + 1) as usize) == Tok::Mark(Punct::Comma) {
            match words_at(ts, (p + 2) as usize) {
                Err(f) => Err(f),
                Ok((rest, q)) => {
                    Ok((Setting::Words(Box::new(Idents::Cons(n, Box::new(rest)))), q))
                },
            }
        } else {
            Ok((Setting::Word(n), (p + 1) as usize))
        },
        Tok::Text(s) => Ok((Setting::Word(s), (p + 1) as usize)),
        Tok::Num(n) => Ok((Setting::Number(n), (p + 1) as usize)),
        _ => Err(Fault::Syntax { at: p }),
    }
}

/// Words with commas between them.
pub open spec fn words_at(ts: Seq<Tok>, p: usize) -> Result<(Idents, usize), Fault>
    decreases ts.len() - p,
{
    match tok_at(ts, p) {
        Tok::Word(_, n) => if tok_at(ts, (p + 1) as usize) == Tok::Mark(Punct::Comma) {
            match words_at(ts, (p + 2) as usize) {
                Err(f) => Err(f),
                Ok((rest, q)) => {
                    Ok((Idents::Cons(n, Box::new(rest)), q))
                },
            }
        } else {
            Ok((Idents::Cons(n, Box::new(Idents::Nil)), (p + 1) as usize))
        },
        _ => Err(Fault::Syntax { at: p }),
    }
}

/// What follows the word `SET`.
pub open spec fn set_at(ts: Seq<Tok>, p: usize) -> Result<(Stmt, usize), Fault>
{
    if is_word(tok_at(ts, p), Kw::Local) {
        assign_at(ts, true, (p + 1) as usize)
    } else if is_word(tok_at(ts, p), Kw::Transaction) {
        match modes_at(
            ts,
            TxnModes { isolation: None, read_only: None, deferrable: None },
            (p + 1) as usize,
        ) {
            Err(f) => Err(f),
            Ok((m, q)) => {
                Ok((Stmt::SetModes(Scope::Transaction, m), q))
            },
        }
    } else if is_word(tok_at(ts, p), Kw::Constraints) {
        constraints_at(ts, (p + 1) as usize)
    } else if is_word(tok_at(ts, p), Kw::Session) {
        if is_word(tok_at(ts, (p + 1) as usize), Kw::Characteristics) {
            match word_at(ts, (p + 2) as usize, Kw::As) {
                Err(f) => Err(f),
                Ok((_, q)) => {
                    match word_at(ts, q, Kw::Transaction) {
                        Err(f) => Err(f),
                        Ok((_, r)) => {
                            match modes_at(
                                ts,
                                TxnModes { isolation: None, read_only: None, deferrable: None },
                                r,
                            ) {
                                Err(f) => Err(f),
                                Ok((m, u)) => {
                                    Ok((Stmt::SetModes(Scope::Session, m), u))
                                },
                            }
                        },
                    }
                },
            }
        } else if is_word(tok_at(ts, (p + 1) as usize), Kw::Authorization) {
            if is_word(tok_at(ts, (p + 2) as usize), Kw::Default) {
                Ok((Stmt::ActAs(None, Tag::SetVariable), (p + 3) as usize))
            } else {
                match role_word_at(ts, (p + 2) as usize) {
                    Err(f) => Err(f),
                    Ok((n, q)) => {
                        Ok((Stmt::ActAs(Some(n), Tag::SetVariable), q))
                    },
                }
            }
        } else {
            assign_at(ts, false, (p + 1) as usize)
        }
    } else {
        assign_at(ts, false, p)
    }
}

/// The name of a role, which may be given as a text.
pub open spec fn role_word_at(ts: Seq<Tok>, p: usize) -> Result<(usize, usize), Fault>
{
    match tok_at(ts, p) {
        Tok::Text(n) => Ok((n, (p + 1) as usize)),
        _ => ident_at(ts, p),
    }
}

/// The names of constraints, or the word `ALL`, and when they are checked.
pub open spec fn constraints_at(ts: Seq<Tok>, p: usize) -> Result<(Stmt, usize), Fault>
{
    if is_word(tok_at(ts, p), Kw::All) {
        match checked_at(ts, (p + 1) as usize) {
            Err(f) => Err(f),
            Ok((_, q)) => {
                Ok((Stmt::SetConstraints, q))
            },
        }
    } else {
        match words_at(ts, p) {
            Err(f) => Err(f),
            Ok((_, q)) => {
                match checked_at(ts, q) {
                    Err(f) => Err(f),
                    Ok((_, r)) => {
                        Ok((Stmt::SetConstraints, r))
                    },
                }
            },
        }
    }
}

/// When constraints are checked.
pub open spec fn checked_at(ts: Seq<Tok>, p: usize) -> Result<((), usize), Fault>
{
    if is_word(tok_at(ts, p), Kw::Immediate) || is_word(tok_at(ts, p), Kw::Deferred) {
        Ok(((), (p + 1) as usize))
    } else {
        Err(Fault::Syntax { at: p })
    }
}

/// What follows the word `RESET`.
pub open spec fn reset_at(ts: Seq<Tok>, p: usize) -> Result<(Stmt, usize), Fault>
{
    if is_word(tok_at(ts, p), Kw::Session) && is_word(
        tok_at(ts, (p + 1) as usize),
        Kw::Authorization,
    ) {
        Ok((Stmt::ActAs(None, Tag::Reset), (p + 2) as usize))
    } else {
        reset_rest_at(ts, p)
    }
}

/// The name of a setting, or the modes of transactions.
pub open spec fn reset_rest_at(ts: Seq<Tok>, p: usize) -> Result<(Stmt, usize), Fault>
{
    if is_word(tok_at(ts, p), Kw::Transaction) {
        if is_word(tok_at(ts, (p + 1) as usize), Kw::Isolation) {
            match word_at(ts, (p + 2) as usize, Kw::Level) {
                Err(f) => Err(f),
                Ok((_, q)) => {
                    Ok(
                        (
                            Stmt::ResetModes(
                                TxnModes {
                                    isolation: Some(IsolationLevel::ReadCommitted),
                                    read_only: None,
                                    deferrable: None,
                                },
                            ),
                            q,
                        ),
                    )
                },
            }
        } else if is_word(tok_at(ts, (p + 1) as usize), Kw::Read) {
            match word_at(ts, (p + 2) as usize, Kw::Only) {
                Err(f) => Err(f),
                Ok((_, q)) => {
                    Ok(
                        (
                            Stmt::ResetModes(
                                TxnModes {
                                    isolation: None,
                                    read_only: Some(false),
                                    deferrable: None,
                                },
                            ),
                            q,
                        ),
                    )
                },
            }
        } else {
            match word_at(ts, (p + 1) as usize, Kw::Deferrable) {
                Err(f) => Err(f),
                Ok((_, q)) => {
                    Ok(
                        (
                            Stmt::ResetModes(
                                TxnModes {
                                    isolation: None,
                                    read_only: None,
                                    deferrable: Some(false),
                                },
                            ),
                            q,
                        ),
                    )
                },
            }
        }
    } else {
        match ident_at(ts, p) {
            Err(f) => Err(f),
            Ok((n, q)) => {
                Ok((Stmt::Reset(n), q))
            },
        }
    }
}

/// A number of rows, or the word `ALL`, which stands for no limit. Without either
/// it is one row.
pub open spec fn amount_at(ts: Seq<Tok>, p: usize) -> Result<(Option<u64>, usize), Fault>
{
    match tok_at(ts, p) {
        Tok::Num(n) => Ok((Some(n), (p + 1) as usize)),
        Tok::Word(k, _) => if k == Kw::All {
            Ok((None, (p + 1) as usize))
        } else {
            Ok((Some(1), p))
        },
        _ => Ok((Some(1), p)),
    }
}

/// Where a cursor is to go.
pub open spec fn whither_at(ts: Seq<Tok>, p: usize) -> Result<(Direction, usize), Fault>
{
    match tok_at(ts, p) {
        Tok::Word(k, _) => match k {
            Kw::Next => Ok((Direction::Forward(Some(1)), (p + 1) as usize)),
            Kw::Prior => Ok((Direction::Backward(Some(1)), (p + 1) as usize)),
            Kw::First => Ok((Direction::First, (p + 1) as usize)),
            Kw::Last => Ok((Direction::Last, (p + 1) as usize)),
            Kw::Forward => {
                match amount_at(ts, (p + 1) as usize) {
                    Err(f) => Err(f),
                    Ok((n, q)) => {
                        Ok((Direction::Forward(n), q))
                    },
                }
            },
            Kw::Backward => {
                match amount_at(ts, (p + 1) as usize) {
                    Err(f) => Err(f),
                    Ok((n, q)) => {
                        Ok((Direction::Backward(n), q))
                    },
                }
            },
            _ => {
                match amount_at(ts, p) {
                    Err(f) => Err(f),
                    Ok((n, q)) => {
                        Ok((Direction::Forward(n), q))
                    },
                }
            },
        },
        _ => {
            match amount_at(ts, p) {
                Err(f) => Err(f),
                Ok((n, q)) => {
                    Ok((Direction::Forward(n), q))
                },
            }
        },
    }
}

/// Where a cursor is to go, and its name.
pub open spec fn cursor_at(ts: Seq<Tok>, p: usize) -> Result<((Direction, usize), usize), Fault>
{
    match whither_at(ts, p) {
        Err(f) => Err(f),
        Ok((d, q)) => {
            if is_word(tok_at(ts, q), Kw::In) || is_word(tok_at(ts, q), Kw::From) {
                match ident_at(ts, (q + 1) as usize) {
                    Err(f) => Err(f),
                    Ok((n, r)) => {
                        Ok(((d, n), r))
                    },
                }
            } else {
                match ident_at(ts, q) {
                    Err(f) => Err(f),
                    Ok((n, r)) => {
                        Ok(((d, n), r))
                    },
                }
            }
        },
    }
}

/// What is left of a statement.
pub open spec fn skipped_at(ts: Seq<Tok>, p: usize) -> Result<((), usize), Fault>
    decreases ts.len() - p,
{
    if tok_at(ts, p) == Tok::End || tok_at(ts, p) == Tok::Mark(Punct::Semicolon) {
        Ok(((), p))
    } else {
        skipped_at(ts, (p + 1) as usize)
    }
}

/// What follows the word `DECLARE`.
pub open spec fn declare_at(ts: Seq<Tok>, p: usize) -> Result<(Stmt, usize), Fault>
{
    match ident_at(ts, p) {
        Err(f) => Err(f),
        Ok((n, q)) => {
            let r: usize = if is_word(tok_at(ts, q), Kw::Scroll) { ((q + 1) as usize) } else { q };
            match word_at(ts, r, Kw::Cursor) {
                Err(f) => Err(f),
                Ok((_, s)) => {
                    match word_at(ts, s, Kw::For) {
                        Err(f) => Err(f),
                        Ok((_, t)) => {
                            if is_word(tok_at(ts, t), Kw::Select)
                                || is_word(tok_at(ts, t), Kw::Values)
                                || is_word(tok_at(ts, t), Kw::With)
                                || tok_at(ts, t) == Tok::Mark(Punct::LParen)
                            {
                                match query_at(ts, MAX_DEPTH, t) {
                                    Err(f) => Err(f),
                                    Ok((query, u)) => {
                                        Ok((Stmt::Declare(n, Some(Box::new(query))), u))
                                    },
                                }
                            } else if t < ts.len() {
                                match skipped_at(ts, t) {
                                    Err(f) => Err(f),
                                    Ok((_, u)) => {
                                        Ok((Stmt::Declare(n, None), u))
                                    },
                                }
                            } else {
                                Err(Fault::Syntax { at: t })
                            }
                        },
                    }
                },
            }
        },
    }
}

/// One statement.
pub open spec fn statement_at(ts: Seq<Tok>, p: usize) -> Result<(Stmt, usize), Fault>
{
    match tok_at(ts, p) {
        Tok::Word(k, _) => match k {
            Kw::Insert => {
                match insert_at(ts, (p + 1) as usize) {
                    Err(f) => Err(f),
                    Ok((s, q)) => {
                        match on_conflict_at(ts, s, q) {
                            Err(f) => Err(f),
                            Ok((t, r)) => {
                                returning_at(ts, t, r)
                            },
                        }
                    },
                }
            },
            Kw::Update => {
                match update_at(ts, (p + 1) as usize) {
                    Err(f) => Err(f),
                    Ok((s, q)) => {
                        returning_at(ts, s, q)
                    },
                }
            },
            Kw::Delete => {
                match delete_at(ts, (p + 1) as usize) {
                    Err(f) => Err(f),
                    Ok((s, q)) => {
                        returning_at(ts, s, q)
                    },
                }
            },
            Kw::Create => create_at(ts, (p + 1) as usize),
            Kw::Drop => drop_at(ts, (p + 1) as usize),
            Kw::Alter => alter_at(ts, (p + 1) as usize),
            Kw::Reassign => reassign_at(ts, (p + 1) as usize),
            Kw::Do => do_block_at(ts, (p + 1) as usize),
            Kw::Grant => grant_at(ts, (p + 1) as usize),
            Kw::Revoke => revoke_at(ts, (p + 1) as usize),
            Kw::Begin => {
                match work_at(ts, (p + 1) as usize) {
                    Err(f) => Err(f),
                    Ok((_, q)) => {
                        match modes_at(
                            ts,
                            TxnModes { isolation: None, read_only: None, deferrable: None },
                            q,
                        ) {
                            Err(f) => Err(f),
                            Ok((m, r)) => {
                                Ok((Stmt::Begin(Tag::Begin, m), r))
                            },
                        }
                    },
                }
            },
            Kw::Start => {
                match word_at(ts, (p + 1) as usize, Kw::Transaction) {
                    Err(f) => Err(f),
                    Ok((_, q)) => {
                        match modes_at(
                            ts,
                            TxnModes { isolation: None, read_only: None, deferrable: None },
                            q,
                        ) {
                            Err(f) => Err(f),
                            Ok((m, r)) => {
                                Ok((Stmt::Begin(Tag::StartTransaction, m), r))
                            },
                        }
                    },
                }
            },
            Kw::Commit => if is_word(tok_at(ts, (p + 1) as usize), Kw::Prepared) {
                prepared_end_at(ts, (p + 2) as usize)
            } else {
                match work_at(ts, (p + 1) as usize) {
                    Err(f) => Err(f),
                    Ok((_, q)) => {
                        Ok((Stmt::Commit, q))
                    },
                }
            },
            Kw::End => {
                match work_at(ts, (p + 1) as usize) {
                    Err(f) => Err(f),
                    Ok((_, q)) => {
                        Ok((Stmt::Commit, q))
                    },
                }
            },
            Kw::Rollback => if is_word(tok_at(ts, (p + 1) as usize), Kw::Prepared) {
                prepared_end_at(ts, (p + 2) as usize)
            } else {
                rollback_at(ts, (p + 1) as usize)
            },
            Kw::Savepoint => {
                match ident_at(ts, (p + 1) as usize) {
                    Err(f) => Err(f),
                    Ok((n, q)) => {
                        Ok((Stmt::Savepoint(n), q))
                    },
                }
            },
            Kw::Release => if is_word(tok_at(ts, (p + 1) as usize), Kw::Savepoint) {
                match ident_at(ts, (p + 2) as usize) {
                    Err(f) => Err(f),
                    Ok((n, q)) => {
                        Ok((Stmt::Release(n), q))
                    },
                }
            } else {
                match ident_at(ts, (p + 1) as usize) {
                    Err(f) => Err(f),
                    Ok((n, q)) => {
                        Ok((Stmt::Release(n), q))
                    },
                }
            },
            Kw::Declare => match declare_at(ts, (p + 1) as usize) {
                Ok((s, q)) => if q >= ts.len() || tok_at(ts, q) == Tok::Mark(Punct::Semicolon) {
                    Ok((s, q))
                } else {
                    Err(Fault::Malformed { tag: Tag::Declare })
                },
                Err(_) => Err(Fault::Malformed { tag: Tag::Declare }),
            },
            Kw::Fetch => match cursor_at(ts, (p + 1) as usize) {
                Ok(((d, n), q)) => if q >= ts.len() || tok_at(ts, q) == Tok::Mark(Punct::Semicolon) {
                    Ok((Stmt::Fetch(n, d), q))
                } else {
                    Err(Fault::Malformed { tag: Tag::Fetch })
                },
                Err(_) => Err(Fault::Malformed { tag: Tag::Fetch }),
            },
            Kw::Move => match cursor_at(ts, (p + 1) as usize) {
                Ok(((d, n), q)) => if q >= ts.len() || tok_at(ts, q) == Tok::Mark(Punct::Semicolon) {
                    Ok((Stmt::Move(n, d), q))
                } else {
                    Err(Fault::Malformed { tag: Tag::Move })
                },
                Err(_) => Err(Fault::Malformed { tag: Tag::Move }),
            },
            Kw::Close => match ident_at(ts, (p + 1) as usize) {
                Ok((n, q)) => if q >= ts.len() || tok_at(ts, q) == Tok::Mark(Punct::Semicolon) {
                    Ok((Stmt::Close(n), q))
                } else {
                    Err(Fault::Malformed { tag: Tag::Close })
                },
                Err(_) => Err(Fault::Malformed { tag: Tag::Close }),
            },
            Kw::SetTo => set_at(ts, (p + 1) as usize),
            Kw::Reset => reset_at(ts, (p + 1) as usize),
            Kw::Show => {
                match ident_at(ts, (p + 1) as usize) {
                    Err(f) => Err(f),
                    Ok((n, q)) => {
                        Ok((Stmt::Show(n), q))
                    },
                }
            },
            _ => {
                match query_at(ts, MAX_DEPTH, p) {
                    Err(f) => Err(f),
                    Ok((q, r)) => {
                        Ok((drawing(q), r))
                    },
                }
            },
        },
        _ => {
            match query_at(ts, MAX_DEPTH, p) {
                Err(f) => Err(f),
                Ok((q, r)) => {
                    Ok((drawing(q), r))
                },
            }
        },
    }
}

/// Statements with semicolons between them, up to the end of the tokens. Empty
/// statements are passed over.
pub open spec fn statements_at(ts: Seq<Tok>, p: usize) -> Result<(Stmts, usize), Fault>
    decreases ts.len() - p,
{
    if tok_at(ts, p) == Tok::Mark(Punct::Semicolon) {
        statements_at(ts, (p + 1) as usize)
    } else if p >= ts.len() {
        Ok((Stmts::Nil, p))
    } else {
        match statement_at(ts, p) {
            Err(f) => Err(f),
            Ok((first, q)) => {
                if q >= ts.len() {
                    Ok((Stmts::Cons(Box::new(first), Box::new(Stmts::Nil)), q))
                } else if tok_at(ts, q) == Tok::Mark(Punct::Semicolon) && beyond(ts, p, q) {
                    match statements_at(ts, (q + 1) as usize) {
                        Err(f) => Err(f),
                        Ok((rest, r)) => {
                            Ok((Stmts::Cons(Box::new(first), Box::new(rest)), r))
                        },
                    }
                } else {
                    Err(Fault::Syntax { at: q })
                }
            },
        }
    }
}

fn parse_mark(ts: &Vec<Tok>, p: usize, m: Punct) -> (r: Result<((), usize), Fault>)
    ensures
        r == mark_at(ts@, p, m),
{
    if peek(ts, p) == Tok::Mark(m) {
        Ok(((), p + 1))
    } else {
        Err(Fault::Syntax { at: p })
    }
}

fn parse_word(ts: &Vec<Tok>, p: usize, k: Kw) -> (r: Result<((), usize), Fault>)
    ensures
        r == word_at(ts@, p, k),
{
    if word_is(peek(ts, p), k) {
        Ok(((), p + 1))
    } else {
        Err(Fault::Syntax { at: p })
    }
}

fn parse_ident(ts: &Vec<Tok>, p: usize) -> (r: Result<(usize, usize), Fault>)
    ensures
        r == ident_at(ts@, p),
{
    match peek(ts, p) {
        Tok::Word(k, n) => if keyword::is_reserved(k) {
            Err(Fault::Syntax { at: p })
        } else {
            Ok((n, p + 1))
        },
        _ => Err(Fault::Syntax { at: p }),
    }
}

fn parse_alias(ts: &Vec<Tok>, p: usize) -> (r: Result<(Option<usize>, usize), Fault>)
    ensures
        r == alias_at(ts@, p),
{
    match peek(ts, p) {
        Tok::Word(k, n) => if k == Kw::As {
            match peek(ts, p + 1) {
                Tok::Word(_, m) => Ok((Some(m), p + 2)),
                _ => Err(Fault::Syntax { at: p }),
            }
        } else if keyword::is_reserved(k) {
            Ok((None, p))
        } else {
            Ok((Some(n), p + 1))
        },
        _ => Ok((None, p)),
    }
}

fn parse_name(ts: &Vec<Tok>, p: usize) -> (r: Result<(Name, usize), Fault>)
    ensures
        r == name_at(ts@, p),
{
    let (first, q): (usize, usize) = parse_ident(ts, p)?;
    if peek(ts, q) == Tok::Mark(Punct::Dot) {
        let (second, r): (usize, usize) = parse_ident(ts, q + 1)?;
        Ok((Name { schema: Some(first), name: second }, r))
    } else {
        Ok((Name { schema: None, name: first }, q))
    }
}

fn parse_idents(ts: &Vec<Tok>, p: usize) -> (r: Result<(Idents, usize), Fault>)
    ensures
        r == idents_at(ts@, p),
    decreases ts.len() - p,
{
    let (n, q): (usize, usize) = parse_ident(ts, p)?;
    if peek(ts, q) == Tok::Mark(Punct::Comma) && goes_on(ts, p, q + 1) {
        let (rest, r): (Idents, usize) = parse_idents(ts, q + 1)?;
        Ok((Idents::Cons(n, Box::new(rest)), r))
    } else {
        Ok((Idents::Cons(n, Box::new(Idents::Nil)), q))
    }
}

fn parse_ident_list(ts: &Vec<Tok>, p: usize) -> (r: Result<(Idents, usize), Fault>)
    ensures
        r == ident_list_at(ts@, p),
{
    let (_, q): ((), usize) = parse_mark(ts, p, Punct::LParen)?;
    let (names, r): (Idents, usize) = parse_idents(ts, q)?;
    let (_, s): ((), usize) = parse_mark(ts, r, Punct::RParen)?;
    Ok((names, s))
}

fn parse_data_type(ts: &Vec<Tok>, p: usize) -> (r: Result<(DataType, usize), Fault>)
    ensures
        r == data_type_at(ts@, p),
{
    match peek(ts, p) {
        Tok::Word(Kw::Int, _) => Ok((DataType::Int, p + 1)),
        Tok::Word(Kw::Integer, _) => Ok((DataType::Int, p + 1)),
        Tok::Word(Kw::Int4, _) => Ok((DataType::Int, p + 1)),
        Tok::Word(Kw::Bigint, _) => Ok((DataType::BigInt, p + 1)),
        Tok::Word(Kw::Int8, _) => Ok((DataType::BigInt, p + 1)),
        Tok::Word(Kw::Boolean, _) => Ok((DataType::Boolean, p + 1)),
        Tok::Word(Kw::Bool, _) => Ok((DataType::Boolean, p + 1)),
        Tok::Word(Kw::Text, _) => Ok((DataType::Text, p + 1)),
        Tok::Word(Kw::Varchar, _) => Ok((DataType::Text, p + 1)),
        _ => Err(Fault::Syntax { at: p }),
    }
}

fn parse_column_type(ts: &Vec<Tok>, p: usize) -> (
    r: Result<((DataType, Option<Limit>), usize), Fault>
)
    ensures
        r == column_type_at(ts@, p),
{
    match peek(ts, p) {
        Tok::Word(Kw::Varchar, _) => {
            let (limit, q): (Option<Limit>, usize) = parse_limit(ts, false, p + 1)?;
            Ok(((DataType::Text, limit), q))
        },
        Tok::Word(Kw::Char, _) => {
            let (limit, q): (Option<Limit>, usize) = parse_limit(ts, true, p + 1)?;
            Ok(((DataType::Text, limit), q))
        },
        Tok::Word(Kw::Character, _) => if word_is(peek(ts, p + 1), Kw::Varying) {
            let (limit, q): (Option<Limit>, usize) = parse_limit(ts, false, p + 2)?;
            Ok(((DataType::Text, limit), q))
        } else {
            let (limit, q): (Option<Limit>, usize) = parse_limit(ts, true, p + 1)?;
            Ok(((DataType::Text, limit), q))
        },
        _ => {
            let (ty, q): (DataType, usize) = parse_data_type(ts, p)?;
            Ok(((ty, None), q))
        },
    }
}

fn parse_limit(ts: &Vec<Tok>, fixed: bool, p: usize) -> (r: Result<(Option<Limit>, usize), Fault>)
    ensures
        r == limit_at(ts@, fixed, p),
{
    if peek(ts, p) == Tok::Mark(Punct::LParen) {
        let (length, q): (u64, usize) = parse_number(ts, p + 1)?;
        let (_, r): ((), usize) = parse_mark(ts, q, Punct::RParen)?;
        Ok((Some(Limit { length, fixed }), r))
    } else if fixed {
        Ok((Some(Limit { length: 1, fixed }), p))
    } else {
        Ok((None, p))
    }
}

fn parse_number(ts: &Vec<Tok>, p: usize) -> (r: Result<(u64, usize), Fault>)
    ensures
        r == number_at(ts@, p),
{
    match peek(ts, p) {
        Tok::Num(n) => Ok((n, p + 1)),
        _ => Err(Fault::Syntax { at: p }),
    }
}

fn parse_literal(ts: &Vec<Tok>, p: usize) -> (r: Result<(Datum, usize), Fault>)
    ensures
        r == literal_at(ts@, p),
{
    match peek(ts, p) {
        Tok::Num(n) => if n <= 2147483647 {
            Ok((Datum::Int(n as i32), p + 1))
        } else if n <= 9223372036854775807 {
            Ok((Datum::Big(n as i64), p + 1))
        } else {
            Err(Fault::NumberTooLarge)
        },
        Tok::Text(s) => Ok((Datum::Text(s), p + 1)),
        Tok::Word(Kw::Null, _) => Ok((Datum::Null, p + 1)),
        Tok::Word(Kw::True, _) => Ok((Datum::Bool(true), p + 1)),
        Tok::Word(Kw::False, _) => Ok((Datum::Bool(false), p + 1)),
        _ => Err(Fault::Syntax { at: p }),
    }
}

fn parse_query(ts: &Vec<Tok>, depth: u32, p: usize) -> (r: Result<(Query, usize), Fault>)
    ensures
        r == query_at(ts@, depth, p),
    decreases depth, 90int, 0int,
{
    if word_is(peek(ts, p), Kw::With) {
        if depth == 0 {
            Err(Fault::TooDeep)
        } else {
            parse_with(ts, depth - 1, p + 1)
        }
    } else {
        parse_plain_query(ts, depth, p)
    }
}

fn parse_with(ts: &Vec<Tok>, depth: u32, p: usize) -> (r: Result<(Query, usize), Fault>)
    ensures
        r == with_at(ts@, depth, p),
    decreases depth, 89int, ts.len() - p,
{
    let (n, q): (usize, usize) = parse_ident(ts, p)?;
    let (cols, r): (Idents, usize) = parse_column_aliases(ts, q)?;
    let (_, s): ((), usize) = parse_word(ts, r, Kw::As)?;
    let (_, t): ((), usize) = parse_mark(ts, s, Punct::LParen)?;
    if depth == 0 {
        Err(Fault::TooDeep)
    } else {
        let (def, u): (Query, usize) = parse_query(ts, depth - 1, t)?;
        let (_, v): ((), usize) = parse_mark(ts, u, Punct::RParen)?;
        if peek(ts, v) == Tok::Mark(Punct::Comma) && goes_on(ts, p, v + 1) {
            let (body, x): (Query, usize) = parse_with(ts, depth, v + 1)?;
            Ok((Query::With(n, Box::new(cols), Box::new(def), Box::new(body)), x))
        } else {
            let (body, x): (Query, usize) = parse_plain_query(ts, depth, v)?;
            Ok((Query::With(n, Box::new(cols), Box::new(def), Box::new(body)), x))
        }
    }
}

fn parse_plain_query(ts: &Vec<Tok>, depth: u32, p: usize) -> (r: Result<(Query, usize), Fault>)
    ensures
        r == plain_query_at(ts@, depth, p),
    decreases depth, 88int, 0int,
{
    let (first, q): (Query, usize) = parse_intersections(ts, depth, p)?;
    let (body, r): (Query, usize) = parse_unions(ts, depth, first, q)?;
    let (orders, s): ((Orders, bool), usize) = parse_order_clause(ts, depth, r)?;
    let (limit, t): ((bool, Option<u64>), usize) = parse_limit_clause(ts, s)?;
    let (offset, u): ((bool, u64), usize) = parse_offset_clause(ts, t)?;
    Ok((add_order(body, orders.0, orders.1, limit.0 || offset.0, limit.1, offset.1), u))
}

fn parse_order_clause(ts: &Vec<Tok>, depth: u32, p: usize) -> (
    r: Result<((Orders, bool), usize), Fault>
)
    ensures
        r == order_clause_at(ts@, depth, p),
    decreases depth, 58int, 0int,
{
    if word_is(peek(ts, p), Kw::Order) {
        let (_, q): ((), usize) = parse_word(ts, p + 1, Kw::By)?;
        let (orders, r): (Orders, usize) = parse_orders(ts, depth, q)?;
        Ok(((orders, true), r))
    } else {
        Ok(((Orders::Nil, false), p))
    }
}

fn parse_limit_clause(ts: &Vec<Tok>, p: usize) -> (r: Result<((bool, Option<u64>), usize), Fault>)
    ensures
        r == limit_clause_at(ts@, p),
{
    if word_is(peek(ts, p), Kw::Limit) {
        if word_is(peek(ts, p + 1), Kw::All) {
            Ok(((true, None), p + 2))
        } else {
            let (n, q): (u64, usize) = parse_number(ts, p + 1)?;
            Ok(((true, Some(n)), q))
        }
    } else {
        Ok(((false, None), p))
    }
}

fn parse_offset_clause(ts: &Vec<Tok>, p: usize) -> (r: Result<((bool, u64), usize), Fault>)
    ensures
        r == offset_clause_at(ts@, p),
{
    if word_is(peek(ts, p), Kw::Offset) {
        let (n, q): (u64, usize) = parse_number(ts, p + 1)?;
        Ok(((true, n), q))
    } else {
        Ok(((false, 0), p))
    }
}

fn parse_orders(ts: &Vec<Tok>, depth: u32, p: usize) -> (r: Result<(Orders, usize), Fault>)
    ensures
        r == orders_at(ts@, depth, p),
    decreases depth, 55int, ts.len() - p,
{
    let (e, q): (Expr, usize) = parse_prec(ts, depth, 1, p)?;
    let (desc, r): (bool, usize) = parse_direction(ts, q)?;
    let (first, s): (bool, usize) = parse_nulls(ts, desc, r)?;
    if peek(ts, s) == Tok::Mark(Punct::Comma) && goes_on(ts, p, s + 1) {
        let (rest, t): (Orders, usize) = parse_orders(ts, depth, s + 1)?;
        Ok((Orders::Cons(Box::new(e), desc, first, Box::new(rest)), t))
    } else {
        Ok((Orders::Cons(Box::new(e), desc, first, Box::new(Orders::Nil)), s))
    }
}

fn parse_direction(ts: &Vec<Tok>, p: usize) -> (r: Result<(bool, usize), Fault>)
    ensures
        r == direction_at(ts@, p),
{
    if word_is(peek(ts, p), Kw::Desc) {
        Ok((true, p + 1))
    } else if word_is(peek(ts, p), Kw::Asc) {
        Ok((false, p + 1))
    } else {
        Ok((false, p))
    }
}

fn parse_nulls(ts: &Vec<Tok>, desc: bool, p: usize) -> (r: Result<(bool, usize), Fault>)
    ensures
        r == nulls_at(ts@, desc, p),
{
    if word_is(peek(ts, p), Kw::Nulls) {
        if word_is(peek(ts, p + 1), Kw::First) {
            Ok((true, p + 2))
        } else {
            let (_, q): ((), usize) = parse_word(ts, p + 1, Kw::Last)?;
            Ok((false, q))
        }
    } else {
        Ok((desc, p))
    }
}

fn parse_unions(
    ts: &Vec<Tok>,
    depth: u32,
    first: Query,
    p: usize,
) -> (r: Result<(Query, usize), Fault>)
    ensures
        r == unions_at(ts@, depth, first, p),
    decreases depth, 80int, ts.len() - p,
{
    if word_is(peek(ts, p), Kw::Union) || word_is(peek(ts, p), Kw::Except) {
        let kind: Combine = if word_is(peek(ts, p), Kw::Union) {
            Combine::Union
        } else {
            Combine::Except
        };
        let (all, q): (bool, usize) = parse_all_flag(ts, p + 1)?;
        let (second, r): (Query, usize) = parse_intersections(ts, depth, q)?;
        if goes_on(ts, p, r) {
            parse_unions(
                ts,
                depth,
                Query::Combined(kind, all, Box::new(first), Box::new(second)),
                r,
            )
        } else {
            Err(Fault::Syntax { at: p })
        }
    } else {
        Ok((first, p))
    }
}

fn parse_all_flag(ts: &Vec<Tok>, p: usize) -> (r: Result<(bool, usize), Fault>)
    ensures
        r == all_flag_at(ts@, p),
{
    if word_is(peek(ts, p), Kw::All) {
        Ok((true, p + 1))
    } else if word_is(peek(ts, p), Kw::Distinct) {
        Ok((false, p + 1))
    } else {
        Ok((false, p))
    }
}

fn parse_intersections(ts: &Vec<Tok>, depth: u32, p: usize) -> (r: Result<(Query, usize), Fault>)
    ensures
        r == intersections_at(ts@, depth, p),
    decreases depth, 78int, 0int,
{
    let (first, q): (Query, usize) = parse_block(ts, depth, p)?;
    parse_more_intersections(ts, depth, first, q)
}

fn parse_more_intersections(
    ts: &Vec<Tok>,
    depth: u32,
    first: Query,
    p: usize,
) -> (r: Result<(Query, usize), Fault>)
    ensures
        r == more_intersections_at(ts@, depth, first, p),
    decreases depth, 77int, ts.len() - p,
{
    if word_is(peek(ts, p), Kw::Intersect) {
        let (all, q): (bool, usize) = parse_all_flag(ts, p + 1)?;
        let (second, r): (Query, usize) = parse_block(ts, depth, q)?;
        if goes_on(ts, p, r) {
            parse_more_intersections(
                ts,
                depth,
                Query::Combined(Combine::Intersect, all, Box::new(first), Box::new(second)),
                r,
            )
        } else {
            Err(Fault::Syntax { at: p })
        }
    } else {
        Ok((first, p))
    }
}

fn parse_block(ts: &Vec<Tok>, depth: u32, p: usize) -> (r: Result<(Query, usize), Fault>)
    ensures
        r == block_at(ts@, depth, p),
    decreases depth, 70int, 0int,
{
    match peek(ts, p) {
        Tok::Word(Kw::Select, _) => {
            let (s, q): (Select, usize) = parse_select(ts, depth, p + 1)?;
            Ok((Query::Select(Box::new(s)), q))
        },
        Tok::Word(Kw::Values, _) => {
            let (rows, q): (ExprRows, usize) = parse_expr_rows(ts, depth, p + 1)?;
            Ok((Query::Values(Box::new(rows)), q))
        },
        Tok::Mark(Punct::LParen) => if depth == 0 {
            Err(Fault::TooDeep)
        } else {
            let (inner, q): (Query, usize) = parse_query(ts, depth - 1, p + 1)?;
            let (_, r): ((), usize) = parse_mark(ts, q, Punct::RParen)?;
            Ok((inner, r))
        },
        _ => Err(Fault::Syntax { at: p }),
    }
}

fn parse_expr_rows(ts: &Vec<Tok>, depth: u32, p: usize) -> (r: Result<(ExprRows, usize), Fault>)
    ensures
        r == expr_rows_at(ts@, depth, p),
    decreases depth, 60int, ts.len() - p,
{
    let (_, q): ((), usize) = parse_mark(ts, p, Punct::LParen)?;
    let (row, r): (Exprs, usize) = parse_exprs(ts, depth, q)?;
    let (_, s): ((), usize) = parse_mark(ts, r, Punct::RParen)?;
    if peek(ts, s) == Tok::Mark(Punct::Comma) && goes_on(ts, p, s + 1) {
        let (rest, t): (ExprRows, usize) = parse_expr_rows(ts, depth, s + 1)?;
        Ok((ExprRows::Cons(Box::new(row), Box::new(rest)), t))
    } else {
        Ok((ExprRows::Cons(Box::new(row), Box::new(ExprRows::Nil)), s))
    }
}

fn parse_select(ts: &Vec<Tok>, depth: u32, p: usize) -> (r: Result<(Select, usize), Fault>)
    ensures
        r == select_at(ts@, depth, p),
    decreases depth, 65int, 0int,
{
    let (distinct, q): (Distinct, usize) = parse_distinct_clause(ts, depth, p)?;
    let (items, r): (Items, usize) = parse_items(ts, depth, q)?;
    let (source, s): (Source, usize) = parse_from_clause(ts, depth, r)?;
    let (filter, t): ((bool, Expr), usize) = parse_condition(ts, depth, Kw::Where, s)?;
    let (group, u): (Exprs, usize) = parse_group_clause(ts, depth, t)?;
    let (having, v): ((bool, Expr), usize) = parse_condition(ts, depth, Kw::Having, u)?;
    Ok(
        (
            Select {
                distinct,
                items,
                source,
                filter: filter.1,
                group,
                has_having: having.0,
                having: having.1,
                orders: Orders::Nil,
            },
            v,
        ),
    )
}

fn parse_distinct_clause(ts: &Vec<Tok>, depth: u32, p: usize) -> (
    r: Result<(Distinct, usize), Fault>
)
    ensures
        r == distinct_clause_at(ts@, depth, p),
    decreases depth, 62int, 0int,
{
    if word_is(peek(ts, p), Kw::Distinct) {
        if word_is(peek(ts, p + 1), Kw::On) {
            let (_, q): ((), usize) = parse_mark(ts, p + 2, Punct::LParen)?;
            let (keys, r): (Exprs, usize) = parse_exprs(ts, depth, q)?;
            let (_, s): ((), usize) = parse_mark(ts, r, Punct::RParen)?;
            Ok((Distinct::On(Box::new(keys)), s))
        } else {
            Ok((Distinct::Rows, p + 1))
        }
    } else if word_is(peek(ts, p), Kw::All) {
        Ok((Distinct::No, p + 1))
    } else {
        Ok((Distinct::No, p))
    }
}

fn parse_condition(
    ts: &Vec<Tok>,
    depth: u32,
    k: Kw,
    p: usize,
) -> (r: Result<((bool, Expr), usize), Fault>)
    ensures
        r == condition_at(ts@, depth, k, p),
    decreases depth, 62int, 0int,
{
    if word_is(peek(ts, p), k) {
        let (e, q): (Expr, usize) = parse_prec(ts, depth, 1, p + 1)?;
        Ok(((true, e), q))
    } else {
        Ok(((false, Expr::Lit(Datum::Bool(true))), p))
    }
}

fn parse_group_clause(ts: &Vec<Tok>, depth: u32, p: usize) -> (r: Result<(Exprs, usize), Fault>)
    ensures
        r == group_clause_at(ts@, depth, p),
    decreases depth, 62int, 0int,
{
    if word_is(peek(ts, p), Kw::Group) {
        let (_, q): ((), usize) = parse_word(ts, p + 1, Kw::By)?;
        parse_exprs(ts, depth, q)
    } else {
        Ok((Exprs::Nil, p))
    }
}

fn parse_items(ts: &Vec<Tok>, depth: u32, p: usize) -> (r: Result<(Items, usize), Fault>)
    ensures
        r == items_at(ts@, depth, p),
    decreases depth, 60int, ts.len() - p,
{
    let (item, q): (Item, usize) = parse_item(ts, depth, p)?;
    if peek(ts, q) == Tok::Mark(Punct::Comma) && goes_on(ts, p, q + 1) {
        let (rest, r): (Items, usize) = parse_items(ts, depth, q + 1)?;
        Ok((Items::Cons(item, Box::new(rest)), r))
    } else {
        Ok((Items::Cons(item, Box::new(Items::Nil)), q))
    }
}

fn parse_item(ts: &Vec<Tok>, depth: u32, p: usize) -> (r: Result<(Item, usize), Fault>)
    ensures
        r == item_at(ts@, depth, p),
    decreases depth, 59int, 0int,
{
    match peek(ts, p) {
        Tok::Mark(Punct::Star) => Ok((Item::Star, p + 1)),
        Tok::Word(_, n) => if peek(ts, p + 1) == Tok::Mark(Punct::Dot)
            && peek(ts, p + 2) == Tok::Mark(Punct::Star)
        {
            Ok((Item::TableStar(n), p + 3))
        } else {
            parse_expr_item(ts, depth, p)
        },
        _ => parse_expr_item(ts, depth, p),
    }
}

fn parse_expr_item(ts: &Vec<Tok>, depth: u32, p: usize) -> (r: Result<(Item, usize), Fault>)
    ensures
        r == expr_item_at(ts@, depth, p),
    decreases depth, 58int, 0int,
{
    let (e, q): (Expr, usize) = parse_prec(ts, depth, 1, p)?;
    let (a, r): (Option<usize>, usize) = parse_alias(ts, q)?;
    Ok((Item::Expr(Box::new(e), a), r))
}

fn parse_from_clause(ts: &Vec<Tok>, depth: u32, p: usize) -> (r: Result<(Source, usize), Fault>)
    ensures
        r == from_clause_at(ts@, depth, p),
    decreases depth, 64int, 0int,
{
    if word_is(peek(ts, p), Kw::From) {
        let (first, q): (Source, usize) = parse_joins(ts, depth, p + 1)?;
        parse_more_sources(ts, depth, first, q)
    } else {
        Ok((Source::Nothing, p))
    }
}

fn parse_more_sources(
    ts: &Vec<Tok>,
    depth: u32,
    first: Source,
    p: usize,
) -> (r: Result<(Source, usize), Fault>)
    ensures
        r == more_sources_at(ts@, depth, first, p),
    decreases depth, 63int, ts.len() - p,
{
    if peek(ts, p) == Tok::Mark(Punct::Comma) {
        let (second, q): (Source, usize) = parse_joins(ts, depth, p + 1)?;
        if goes_on(ts, p, q) {
            parse_more_sources(
                ts,
                depth,
                Source::Join(JoinKind::Inner, Box::new(first), Box::new(second), JoinOn::Always),
                q,
            )
        } else {
            Err(Fault::Syntax { at: p })
        }
    } else {
        Ok((first, p))
    }
}

fn parse_joins(ts: &Vec<Tok>, depth: u32, p: usize) -> (r: Result<(Source, usize), Fault>)
    ensures
        r == joins_at(ts@, depth, p),
    decreases depth, 62int, 0int,
{
    let (first, q): (Source, usize) = parse_source(ts, depth, p)?;
    parse_more_joins(ts, depth, first, q)
}

fn parse_more_joins(
    ts: &Vec<Tok>,
    depth: u32,
    first: Source,
    p: usize,
) -> (r: Result<(Source, usize), Fault>)
    ensures
        r == more_joins_at(ts@, depth, first, p),
    decreases depth, 61int, ts.len() - p,
{
    let (head, q): (Option<(JoinKind, bool, bool)>, usize) = parse_join_head(ts, p)?;
    match head {
        None => Ok((first, p)),
        Some((kind, natural, cross)) => {
            let (second, r): (Source, usize) = parse_source(ts, depth, q)?;
            let (on, s): (JoinOn, usize) = parse_join_on(ts, depth, natural, cross, r)?;
            if goes_on(ts, p, s) {
                parse_more_joins(
                    ts,
                    depth,
                    Source::Join(kind, Box::new(first), Box::new(second), on),
                    s,
                )
            } else {
                Err(Fault::Syntax { at: p })
            }
        },
    }
}

fn parse_join_head(ts: &Vec<Tok>, p: usize) -> (
    r: Result<(Option<(JoinKind, bool, bool)>, usize), Fault>
)
    ensures
        r == join_head_at(ts@, p),
{
    if word_is(peek(ts, p), Kw::Cross) {
        let (_, q): ((), usize) = parse_word(ts, p + 1, Kw::Join)?;
        Ok((Some((JoinKind::Inner, false, true)), q))
    } else if word_is(peek(ts, p), Kw::Natural) {
        let (kind, q): (Option<JoinKind>, usize) = parse_join_kind(ts, p + 1)?;
        match kind {
            None => Err(Fault::Syntax { at: p }),
            Some(k) => Ok((Some((k, true, false)), q)),
        }
    } else {
        let (kind, q): (Option<JoinKind>, usize) = parse_join_kind(ts, p)?;
        match kind {
            None => Ok((None, p)),
            Some(k) => Ok((Some((k, false, false)), q)),
        }
    }
}

fn parse_join_kind(ts: &Vec<Tok>, p: usize) -> (r: Result<(Option<JoinKind>, usize), Fault>)
    ensures
        r == join_kind_at(ts@, p),
{
    match peek(ts, p) {
        Tok::Word(Kw::Join, _) => Ok((Some(JoinKind::Inner), p + 1)),
        Tok::Word(Kw::Inner, _) => {
            let (_, q): ((), usize) = parse_word(ts, p + 1, Kw::Join)?;
            Ok((Some(JoinKind::Inner), q))
        },
        Tok::Word(Kw::Left, _) => {
            let (_, q): ((), usize) = parse_outer_join(ts, p + 1)?;
            Ok((Some(JoinKind::Left), q))
        },
        Tok::Word(Kw::Right, _) => {
            let (_, q): ((), usize) = parse_outer_join(ts, p + 1)?;
            Ok((Some(JoinKind::Right), q))
        },
        Tok::Word(Kw::Full, _) => {
            let (_, q): ((), usize) = parse_outer_join(ts, p + 1)?;
            Ok((Some(JoinKind::Full), q))
        },
        _ => Ok((None, p)),
    }
}

fn parse_outer_join(ts: &Vec<Tok>, p: usize) -> (r: Result<((), usize), Fault>)
    ensures
        r == outer_join_at(ts@, p),
{
    if word_is(peek(ts, p), Kw::Outer) {
        parse_word(ts, p + 1, Kw::Join)
    } else {
        parse_word(ts, p, Kw::Join)
    }
}

fn parse_join_on(
    ts: &Vec<Tok>,
    depth: u32,
    natural: bool,
    cross: bool,
    p: usize,
) -> (r: Result<(JoinOn, usize), Fault>)
    ensures
        r == join_on_at(ts@, depth, natural, cross, p),
    decreases depth, 59int, 0int,
{
    if natural {
        Ok((JoinOn::Natural, p))
    } else if cross {
        Ok((JoinOn::Always, p))
    } else if word_is(peek(ts, p), Kw::On) {
        let (e, q): (Expr, usize) = parse_prec(ts, depth, 1, p + 1)?;
        Ok((JoinOn::On(Box::new(e)), q))
    } else if word_is(peek(ts, p), Kw::Using) {
        let (names, q): (Idents, usize) = parse_ident_list(ts, p + 1)?;
        if word_is(peek(ts, q), Kw::As) {
            let (n, r): (usize, usize) = parse_ident(ts, q + 1)?;
            Ok((JoinOn::Using(Box::new(names), Some(n)), r))
        } else {
            Ok((JoinOn::Using(Box::new(names), None), q))
        }
    } else {
        Err(Fault::Syntax { at: p })
    }
}

fn parse_source(ts: &Vec<Tok>, depth: u32, p: usize) -> (r: Result<(Source, usize), Fault>)
    ensures
        r == source_at(ts@, depth, p),
    decreases depth, 60int, 0int,
{
    if peek(ts, p) == Tok::Mark(Punct::LParen) {
        if depth == 0 {
            Err(Fault::TooDeep)
        } else if word_is(peek(ts, p + 1), Kw::Select)
            || word_is(peek(ts, p + 1), Kw::Values)
            || word_is(peek(ts, p + 1), Kw::With)
        {
            let (inner, q): (Query, usize) = parse_query(ts, depth - 1, p + 1)?;
            let (_, r): ((), usize) = parse_mark(ts, q, Punct::RParen)?;
            let (a, s): (Option<usize>, usize) = parse_alias(ts, r)?;
            let (cols, t): (Idents, usize) = parse_column_aliases(ts, s)?;
            match a {
                None => Err(Fault::Syntax { at: r }),
                Some(n) => Ok((Source::Sub(Box::new(inner), n, Box::new(cols)), t)),
            }
        } else {
            let (inner, q): (Source, usize) = parse_joins(ts, depth - 1, p + 1)?;
            let (_, r): ((), usize) = parse_mark(ts, q, Punct::RParen)?;
            Ok((inner, r))
        }
    } else if word_is(peek(ts, p), Kw::Rows) && word_is(peek(ts, p + 1), Kw::From) {
        let (_, q): ((), usize) = parse_mark(ts, p + 2, Punct::LParen)?;
        if depth == 0 {
            Err(Fault::TooDeep)
        } else {
            let (inner, r): ((usize, Query), usize) = parse_series(ts, depth - 1, q)?;
            let (_, s): ((), usize) = parse_mark(ts, r, Punct::RParen)?;
            parse_series_name(ts, inner.0, inner.1, s)
        }
    } else if word_is(peek(ts, p), Kw::GenerateSeries) && peek(ts, p + 1) == Tok::Mark(Punct::LParen) {
        if depth == 0 {
            Err(Fault::TooDeep)
        } else {
            let (inner, q): ((usize, Query), usize) = parse_series(ts, depth - 1, p)?;
            parse_series_name(ts, inner.0, inner.1, q)
        }
    } else {
        let (n, q): (Name, usize) = parse_name(ts, p)?;
        let (a, r): (Option<usize>, usize) = parse_alias(ts, q)?;
        Ok((Source::Table(n, a), r))
    }
}

fn parse_series(ts: &Vec<Tok>, depth: u32, p: usize) -> (r: Result<((usize, Query), usize), Fault>)
    ensures
        r == series_at(ts@, depth, p),
    decreases depth, 62int, 0int,
{
    match peek(ts, p) {
        Tok::Word(Kw::GenerateSeries, n) => {
            let (_, q): ((), usize) = parse_mark(ts, p + 1, Punct::LParen)?;
            let (a, r): (Expr, usize) = parse_prec(ts, depth, 1, q)?;
            let (_, s): ((), usize) = parse_mark(ts, r, Punct::Comma)?;
            let (b, t): (Expr, usize) = parse_prec(ts, depth, 1, s)?;
            let (_, u): ((), usize) = parse_mark(ts, t, Punct::RParen)?;
            Ok(((n, Query::Series(Box::new(a), Box::new(b))), u))
        },
        _ => Err(Fault::Syntax { at: p }),
    }
}

fn parse_series_name(
    ts: &Vec<Tok>,
    of: usize,
    inner: Query,
    p: usize,
) -> (r: Result<(Source, usize), Fault>)
    ensures
        r == series_name_at(ts@, of, inner, p),
{
    let (a, q): (Option<usize>, usize) = parse_alias(ts, p)?;
    let (cols, r): (Idents, usize) = parse_column_aliases(ts, q)?;
    let n: usize = match a {
        None => of,
        Some(m) => m,
    };
    match cols {
        Idents::Nil => Ok(
            (Source::Sub(Box::new(inner), n, Box::new(Idents::Cons(n, Box::new(Idents::Nil)))), r),
        ),
        _ => Ok((Source::Sub(Box::new(inner), n, Box::new(cols)), r)),
    }
}

fn parse_column_aliases(ts: &Vec<Tok>, p: usize) -> (r: Result<(Idents, usize), Fault>)
    ensures
        r == column_aliases_at(ts@, p),
{
    if peek(ts, p) == Tok::Mark(Punct::LParen) {
        let (names, q): (Idents, usize) = parse_idents(ts, p + 1)?;
        let (_, r): ((), usize) = parse_mark(ts, q, Punct::RParen)?;
        Ok((names, r))
    } else {
        Ok((Idents::Nil, p))
    }
}

fn parse_exprs(ts: &Vec<Tok>, depth: u32, p: usize) -> (r: Result<(Exprs, usize), Fault>)
    ensures
        r == exprs_at(ts@, depth, p),
    decreases depth, 55int, ts.len() - p,
{
    let (e, q): (Expr, usize) = parse_prec(ts, depth, 1, p)?;
    if peek(ts, q) == Tok::Mark(Punct::Comma) && goes_on(ts, p, q + 1) {
        let (rest, r): (Exprs, usize) = parse_exprs(ts, depth, q + 1)?;
        Ok((Exprs::Cons(Box::new(e), Box::new(rest)), r))
    } else {
        Ok((Exprs::Cons(Box::new(e), Box::new(Exprs::Nil)), q))
    }
}

fn parse_prec(ts: &Vec<Tok>, depth: u32, min: u8, p: usize) -> (r: Result<(Expr, usize), Fault>)
    ensures
        r == prec_at(ts@, depth, min, p),
    decreases depth, 2 * (10 - min) + 21, 0int,
{
    if min > 9 {
        Err(Fault::Syntax { at: p })
    } else if word_is(peek(ts, p), Kw::Not) {
        if depth == 0 {
            Err(Fault::TooDeep)
        } else {
            let (e, q): (Expr, usize) = parse_prec(ts, depth - 1, 3, p + 1)?;
            parse_prec_rest(ts, depth, min, Expr::Not(Box::new(e)), q)
        }
    } else {
        let (e, q): (Expr, usize) = parse_unary(ts, depth, p)?;
        parse_prec_rest(ts, depth, min, e, q)
    }
}

fn parse_prec_rest(
    ts: &Vec<Tok>,
    depth: u32,
    min: u8,
    left: Expr,
    p: usize,
) -> (r: Result<(Expr, usize), Fault>)
    ensures
        r == prec_rest_at(ts@, depth, min, left, p),
    decreases depth, 2 * (10 - min) + 20, 2 * (ts.len() - p),
{
    let (op, q): (Operator, usize) = parse_operator(ts, min, p)?;
    match op {
        Operator::Nothing => Ok((left, p)),
        Operator::Or => {
            let (right, r): (Expr, usize) = parse_prec(ts, depth, 2, q)?;
            parse_step(ts, depth, min, p, Expr::Or(Box::new(left), Box::new(right)), r)
        },
        Operator::And => {
            let (right, r): (Expr, usize) = parse_prec(ts, depth, 3, q)?;
            parse_step(ts, depth, min, p, Expr::And(Box::new(left), Box::new(right)), r)
        },
        Operator::Compare(c) => {
            let (right, r): (Expr, usize) = parse_prec(ts, depth, 5, q)?;
            parse_step(ts, depth, min, p, Expr::Compare(c, Box::new(left), Box::new(right)), r)
        },
        Operator::Join => {
            let (right, r): (Expr, usize) = parse_prec(ts, depth, 6, q)?;
            parse_step(
                ts,
                depth,
                min,
                p,
                Expr::Call(
                    TextFn::Join,
                    symbols::ANONYMOUS,
                    Box::new(left),
                    Box::new(right),
                    Box::new(Expr::Lit(Datum::Null)),
                ),
                r,
            )
        },
        Operator::Plus(a) => {
            let (right, r): (Expr, usize) = parse_prec(ts, depth, 7, q)?;
            parse_step(ts, depth, min, p, Expr::Arith(a, Box::new(left), Box::new(right)), r)
        },
        Operator::Times(a) => {
            let (right, r): (Expr, usize) = parse_prec(ts, depth, 8, q)?;
            parse_step(ts, depth, min, p, Expr::Arith(a, Box::new(left), Box::new(right)), r)
        },
        Operator::IsNull(negated) => parse_step(
            ts,
            depth,
            min,
            p,
            Expr::IsNull(Box::new(left), negated),
            q,
        ),
        Operator::Between(negated) => {
            let (low, r): (Expr, usize) = parse_prec(ts, depth, 5, q)?;
            let (_, s): ((), usize) = parse_word(ts, r, Kw::And)?;
            let (high, t): (Expr, usize) = parse_prec(ts, depth, 5, s)?;
            parse_step(
                ts,
                depth,
                min,
                p,
                Expr::Between(Box::new(left), Box::new(low), Box::new(high), negated),
                t,
            )
        },
        Operator::Like(negated) => {
            let (right, r): (Expr, usize) = parse_prec(ts, depth, 5, q)?;
            parse_step(ts, depth, min, p, Expr::Like(Box::new(left), Box::new(right), negated), r)
        },
        Operator::In(negated) => {
            let (_, r): ((), usize) = parse_mark(ts, q, Punct::LParen)?;
            if depth == 0 {
                Err(Fault::TooDeep)
            } else if peek(ts, r) == Tok::Mark(Punct::RParen) {
                parse_step(
                    ts,
                    depth,
                    min,
                    p,
                    Expr::InList(Box::new(left), Box::new(Exprs::Nil), negated),
                    r + 1,
                )
            } else if word_is(peek(ts, r), Kw::Select) || word_is(peek(ts, r), Kw::Values) {
                let (inner, s): (Query, usize) = parse_query(ts, depth - 1, r)?;
                let (_, t): ((), usize) = parse_mark(ts, s, Punct::RParen)?;
                parse_step(
                    ts,
                    depth,
                    min,
                    p,
                    Expr::InQuery(Box::new(left), Box::new(inner), negated),
                    t,
                )
            } else {
                let (list, s): (Exprs, usize) = parse_exprs(ts, depth - 1, r)?;
                let (_, t): ((), usize) = parse_mark(ts, s, Punct::RParen)?;
                parse_step(
                    ts,
                    depth,
                    min,
                    p,
                    Expr::InList(Box::new(left), Box::new(list), negated),
                    t,
                )
            }
        },
    }
}

fn parse_step(
    ts: &Vec<Tok>,
    depth: u32,
    min: u8,
    p: usize,
    left: Expr,
    q: usize,
) -> (r: Result<(Expr, usize), Fault>)
    ensures
        r == step_at(ts@, depth, min, p, left, q),
    decreases depth, 2 * (10 - min) + 20, 2 * (ts.len() - p) - 1,
{
    if goes_on(ts, p, q) {
        parse_prec_rest(ts, depth, min, left, q)
    } else {
        Err(Fault::Syntax { at: p })
    }
}

fn parse_operator(ts: &Vec<Tok>, min: u8, p: usize) -> (r: Result<(Operator, usize), Fault>)
    ensures
        r == operator_at(ts@, min, p),
{
    match peek(ts, p) {
        Tok::Word(Kw::Or, _) => if min <= 1 {
            Ok((Operator::Or, p + 1))
        } else {
            Ok((Operator::Nothing, p))
        },
        Tok::Word(Kw::And, _) => if min <= 2 {
            Ok((Operator::And, p + 1))
        } else {
            Ok((Operator::Nothing, p))
        },
        Tok::Word(Kw::Is, _) => if min <= 4 {
            if word_is(peek(ts, p + 1), Kw::Not) {
                let (_, q): ((), usize) = parse_word(ts, p + 2, Kw::Null)?;
                Ok((Operator::IsNull(true), q))
            } else {
                let (_, q): ((), usize) = parse_word(ts, p + 1, Kw::Null)?;
                Ok((Operator::IsNull(false), q))
            }
        } else {
            Ok((Operator::Nothing, p))
        },
        Tok::Word(Kw::In, _) => if min <= 4 {
            Ok((Operator::In(false), p + 1))
        } else {
            Ok((Operator::Nothing, p))
        },
        Tok::Word(Kw::Like, _) => if min <= 4 {
            Ok((Operator::Like(false), p + 1))
        } else {
            Ok((Operator::Nothing, p))
        },
        Tok::Word(Kw::Between, _) => if min <= 4 {
            Ok((Operator::Between(false), p + 1))
        } else {
            Ok((Operator::Nothing, p))
        },
        Tok::Word(Kw::Not, _) => if min <= 4 && word_is(peek(ts, p + 1), Kw::In) {
            Ok((Operator::In(true), p + 2))
        } else if min <= 4 && word_is(peek(ts, p + 1), Kw::Between) {
            Ok((Operator::Between(true), p + 2))
        } else if min <= 4 && word_is(peek(ts, p + 1), Kw::Like) {
            Ok((Operator::Like(true), p + 2))
        } else {
            Ok((Operator::Nothing, p))
        },
        Tok::Mark(Punct::Eq) => if min <= 4 {
            Ok((Operator::Compare(Compare::Eq), p + 1))
        } else {
            Ok((Operator::Nothing, p))
        },
        Tok::Mark(Punct::Ne) => if min <= 4 {
            Ok((Operator::Compare(Compare::Ne), p + 1))
        } else {
            Ok((Operator::Nothing, p))
        },
        Tok::Mark(Punct::Lt) => if min <= 4 {
            Ok((Operator::Compare(Compare::Lt), p + 1))
        } else {
            Ok((Operator::Nothing, p))
        },
        Tok::Mark(Punct::Le) => if min <= 4 {
            Ok((Operator::Compare(Compare::Le), p + 1))
        } else {
            Ok((Operator::Nothing, p))
        },
        Tok::Mark(Punct::Gt) => if min <= 4 {
            Ok((Operator::Compare(Compare::Gt), p + 1))
        } else {
            Ok((Operator::Nothing, p))
        },
        Tok::Mark(Punct::Ge) => if min <= 4 {
            Ok((Operator::Compare(Compare::Ge), p + 1))
        } else {
            Ok((Operator::Nothing, p))
        },
        Tok::Mark(Punct::Plus) => if min <= 6 {
            Ok((Operator::Plus(Arith::Plus), p + 1))
        } else {
            Ok((Operator::Nothing, p))
        },
        Tok::Mark(Punct::Minus) => if min <= 6 {
            Ok((Operator::Plus(Arith::Minus), p + 1))
        } else {
            Ok((Operator::Nothing, p))
        },
        Tok::Mark(Punct::Star) => if min <= 7 {
            Ok((Operator::Times(Arith::Times), p + 1))
        } else {
            Ok((Operator::Nothing, p))
        },
        Tok::Mark(Punct::Slash) => if min <= 7 {
            Ok((Operator::Times(Arith::Divide), p + 1))
        } else {
            Ok((Operator::Nothing, p))
        },
        Tok::Mark(Punct::Percent) => if min <= 7 {
            Ok((Operator::Times(Arith::Modulo), p + 1))
        } else {
            Ok((Operator::Nothing, p))
        },
        Tok::Mark(Punct::Bars) => if min <= 5 {
            Ok((Operator::Join, p + 1))
        } else {
            Ok((Operator::Nothing, p))
        },
        _ => Ok((Operator::Nothing, p)),
    }
}

fn parse_unary(ts: &Vec<Tok>, depth: u32, p: usize) -> (r: Result<(Expr, usize), Fault>)
    ensures
        r == unary_at(ts@, depth, p),
    decreases depth, 10int, 0int,
{
    if peek(ts, p) == Tok::Mark(Punct::Minus) {
        if depth == 0 {
            Err(Fault::TooDeep)
        } else {
            let (e, q): (Expr, usize) = parse_unary(ts, depth - 1, p + 1)?;
            Ok((Expr::Negate(Box::new(e)), q))
        }
    } else if peek(ts, p) == Tok::Mark(Punct::Plus) {
        if depth == 0 {
            Err(Fault::TooDeep)
        } else {
            parse_unary(ts, depth - 1, p + 1)
        }
    } else {
        let (e, q): (Expr, usize) = parse_primary(ts, depth, p)?;
        parse_casts(ts, e, q)
    }
}

fn parse_casts(ts: &Vec<Tok>, e: Expr, p: usize) -> (r: Result<(Expr, usize), Fault>)
    ensures
        r == casts_at(ts@, e, p),
    decreases ts.len() - p,
{
    if peek(ts, p) == Tok::Mark(Punct::DoubleColon) {
        let (ty, q): (DataType, usize) = parse_data_type(ts, p + 1)?;
        if goes_on(ts, p, q) {
            parse_casts(ts, Expr::Cast(Box::new(e), ty), q)
        } else {
            Err(Fault::Syntax { at: p })
        }
    } else {
        Ok((e, p))
    }
}

fn parse_primary(ts: &Vec<Tok>, depth: u32, p: usize) -> (r: Result<(Expr, usize), Fault>)
    ensures
        r == primary_at(ts@, depth, p),
    decreases depth, 5int, 0int,
{
    match peek(ts, p) {
        Tok::Num(_) => {
            let (d, q): (Datum, usize) = parse_literal(ts, p)?;
            Ok((Expr::Lit(d), q))
        },
        Tok::Text(_) => {
            let (d, q): (Datum, usize) = parse_literal(ts, p)?;
            Ok((Expr::Lit(d), q))
        },
        Tok::Param(k) => Ok((Expr::Param(k), p + 1)),
        Tok::Mark(Punct::LParen) => if depth == 0 {
            Err(Fault::TooDeep)
        } else if word_is(peek(ts, p + 1), Kw::Select) || word_is(peek(ts, p + 1), Kw::Values) {
            let (inner, q): (Query, usize) = parse_query(ts, depth - 1, p + 1)?;
            let (_, r): ((), usize) = parse_mark(ts, q, Punct::RParen)?;
            Ok((Expr::Scalar(Box::new(inner)), r))
        } else {
            let (e, q): (Expr, usize) = parse_prec(ts, depth - 1, 1, p + 1)?;
            let (_, r): ((), usize) = parse_mark(ts, q, Punct::RParen)?;
            Ok((e, r))
        },
        Tok::Word(k, n) => match k {
            Kw::Null => Ok((Expr::Lit(Datum::Null), p + 1)),
            Kw::True => Ok((Expr::Lit(Datum::Bool(true)), p + 1)),
            Kw::False => Ok((Expr::Lit(Datum::Bool(false)), p + 1)),
            Kw::Default => Ok((Expr::Default, p + 1)),
            Kw::Exists => if depth == 0 {
                Err(Fault::TooDeep)
            } else {
                let (_, q): ((), usize) = parse_mark(ts, p + 1, Punct::LParen)?;
                let (inner, r): (Query, usize) = parse_query(ts, depth - 1, q)?;
                let (_, s): ((), usize) = parse_mark(ts, r, Punct::RParen)?;
                Ok((Expr::Exists(Box::new(inner)), s))
            },
            Kw::Case => if depth == 0 {
                Err(Fault::TooDeep)
            } else {
                parse_case(ts, depth - 1, p + 1)
            },
            Kw::Cast => if depth == 0 {
                Err(Fault::TooDeep)
            } else {
                let (_, q): ((), usize) = parse_mark(ts, p + 1, Punct::LParen)?;
                let (e, r): (Expr, usize) = parse_prec(ts, depth - 1, 1, q)?;
                let (_, s): ((), usize) = parse_word(ts, r, Kw::As)?;
                let (ty, t): (DataType, usize) = parse_data_type(ts, s)?;
                let (_, u): ((), usize) = parse_mark(ts, t, Punct::RParen)?;
                Ok((Expr::Cast(Box::new(e), ty), u))
            },
            _ => if keyword::is_reserved(k) {
                Err(Fault::Syntax { at: p })
            } else if peek(ts, p + 1) == Tok::Mark(Punct::LParen) {
                if depth == 0 {
                    Err(Fault::TooDeep)
                } else {
                    parse_call(ts, depth - 1, k, n, p + 2)
                }
            } else if peek(ts, p + 1) == Tok::Mark(Punct::Dot) {
                let (m, q): (usize, usize) = parse_ident(ts, p + 2)?;
                Ok((Expr::Col(Some(n), m), q))
            } else {
                Ok((Expr::Col(None, n), p + 1))
            },
        },
        _ => Err(Fault::Syntax { at: p }),
    }
}

fn parse_call(
    ts: &Vec<Tok>,
    depth: u32,
    k: Kw,
    n: usize,
    p: usize,
) -> (r: Result<(Expr, usize), Fault>)
    ensures
        r == call_at(ts@, depth, k, n, p),
    decreases depth, 59int, 0int,
{
    match k {
        Kw::Count => if peek(ts, p) == Tok::Mark(Punct::Star) {
            let (_, q): ((), usize) = parse_mark(ts, p + 1, Punct::RParen)?;
            if word_is(peek(ts, q), Kw::Filter) {
                let (c, r): (Expr, usize) = parse_filter(ts, depth, q + 1)?;
                Ok(
                    (
                        Expr::Agg(
                            AggFn::Count,
                            false,
                            Box::new(
                                Expr::Case(
                                    Box::new(
                                        Whens::Cons(
                                            Box::new(c),
                                            Box::new(Expr::Lit(Datum::Bool(true))),
                                            Box::new(Whens::Nil),
                                        ),
                                    ),
                                    Box::new(Expr::Lit(Datum::Null)),
                                ),
                            ),
                        ),
                        r,
                    ),
                )
            } else if word_is(peek(ts, q), Kw::Over) {
                parse_over(ts, depth, WindowFn::Rows, n, Expr::Lit(Datum::Null), q + 1)
            } else {
                Ok((Expr::CountRows, q))
            }
        } else {
            parse_aggregate(ts, depth, AggFn::Count, n, p)
        },
        Kw::Sum => parse_aggregate(ts, depth, AggFn::Sum, n, p),
        Kw::Min => parse_aggregate(ts, depth, AggFn::Min, n, p),
        Kw::Max => parse_aggregate(ts, depth, AggFn::Max, n, p),
        Kw::Nextval => {
            let (name, q): (Name, usize) = parse_sequence_text(ts, p)?;
            Ok((Expr::Next(name, n), q))
        },
        Kw::RowNumber => parse_ranked(ts, depth, WindowFn::RowNumber, n, p),
        Kw::Rank => parse_ranked(ts, depth, WindowFn::Rank, n, p),
        Kw::Lag => parse_beside(ts, depth, WindowFn::Lag, n, p),
        Kw::Lead => parse_beside(ts, depth, WindowFn::Lead, n, p),
        Kw::Coalesce => {
            let (list, q): (Exprs, usize) = parse_exprs(ts, depth, p)?;
            let (_, r): ((), usize) = parse_mark(ts, q, Punct::RParen)?;
            Ok((Expr::Coalesce(Box::new(list)), r))
        },
        Kw::Nullif => {
            let (a, q): (Expr, usize) = parse_prec(ts, depth, 1, p)?;
            let (_, r): ((), usize) = parse_mark(ts, q, Punct::Comma)?;
            let (b, s): (Expr, usize) = parse_prec(ts, depth, 1, r)?;
            let (_, t): ((), usize) = parse_mark(ts, s, Punct::RParen)?;
            Ok((Expr::NullIf(Box::new(a), Box::new(b)), t))
        },
        Kw::Upper => parse_text_call(ts, depth, TextFn::Upper, 1, n, p),
        Kw::Lower => parse_text_call(ts, depth, TextFn::Lower, 1, n, p),
        Kw::Length => parse_text_call(ts, depth, TextFn::Length, 1, n, p),
        Kw::Trim => parse_text_call(ts, depth, TextFn::Trim, 1, n, p),
        Kw::Substring => parse_text_call(ts, depth, TextFn::Substring, 3, n, p),
        Kw::Replace => parse_text_call(ts, depth, TextFn::Replace, 3, n, p),
        Kw::Position => parse_text_call(ts, depth, TextFn::Position, 2, n, p),
        Kw::Lpad => parse_text_call(ts, depth, TextFn::Lpad, 3, n, p),
        Kw::Rpad => parse_text_call(ts, depth, TextFn::Rpad, 3, n, p),
        Kw::Repeat => parse_text_call(ts, depth, TextFn::Repeat, 2, n, p),
        Kw::Concat => parse_concat(ts, depth, n, p),
        _ => Err(Fault::UndefinedFunction { name: n }),
    }
}

fn parse_sequence_text(ts: &Vec<Tok>, p: usize) -> (r: Result<(Name, usize), Fault>)
    ensures
        r == sequence_text_at(ts@, p),
{
    match peek(ts, p) {
        Tok::Text(s) => {
            let (_, q): ((), usize) = parse_mark(ts, p + 1, Punct::RParen)?;
            Ok((Name { schema: None, name: s }, q))
        },
        _ => Err(Fault::Syntax { at: p }),
    }
}

fn parse_text_call(
    ts: &Vec<Tok>,
    depth: u32,
    f: TextFn,
    count: u8,
    n: usize,
    p: usize,
) -> (r: Result<(Expr, usize), Fault>)
    ensures
        r == text_call_at(ts@, depth, f, count, n, p),
    decreases depth, 58int, 0int,
{
    let (a, q): (Expr, usize) = parse_prec(ts, depth, 1, p)?;
    if count == 1 {
        let (_, r): ((), usize) = parse_mark(ts, q, Punct::RParen)?;
        Ok(
            (
                Expr::Call(
                    f,
                    n,
                    Box::new(a),
                    Box::new(Expr::Lit(Datum::Null)),
                    Box::new(Expr::Lit(Datum::Null)),
                ),
                r,
            ),
        )
    } else {
        let (_, r): ((), usize) = parse_mark(ts, q, Punct::Comma)?;
        let (b, s): (Expr, usize) = parse_prec(ts, depth, 1, r)?;
        if count == 2 {
            let (_, t): ((), usize) = parse_mark(ts, s, Punct::RParen)?;
            Ok((Expr::Call(f, n, Box::new(a), Box::new(b), Box::new(Expr::Lit(Datum::Null))), t))
        } else {
            let (_, t): ((), usize) = parse_mark(ts, s, Punct::Comma)?;
            let (c, u): (Expr, usize) = parse_prec(ts, depth, 1, t)?;
            let (_, v): ((), usize) = parse_mark(ts, u, Punct::RParen)?;
            Ok((Expr::Call(f, n, Box::new(a), Box::new(b), Box::new(c)), v))
        }
    }
}

fn parse_concat(ts: &Vec<Tok>, depth: u32, n: usize, p: usize) -> (r: Result<(Expr, usize), Fault>)
    ensures
        r == concat_at(ts@, depth, n, p),
    decreases depth, 58int, ts.len() - p,
{
    let (a, q): (Expr, usize) = parse_prec(ts, depth, 1, p)?;
    if peek(ts, q) == Tok::Mark(Punct::Comma) && goes_on(ts, p, q + 1) {
        let (b, r): (Expr, usize) = parse_concat(ts, depth, n, q + 1)?;
        Ok(
            (
                Expr::Call(
                    TextFn::Concat,
                    n,
                    Box::new(a),
                    Box::new(b),
                    Box::new(Expr::Lit(Datum::Null)),
                ),
                r,
            ),
        )
    } else {
        let (_, r): ((), usize) = parse_mark(ts, q, Punct::RParen)?;
        Ok(
            (
                Expr::Call(
                    TextFn::Concat,
                    n,
                    Box::new(a),
                    Box::new(Expr::Lit(Datum::Null)),
                    Box::new(Expr::Lit(Datum::Null)),
                ),
                r,
            ),
        )
    }
}

fn parse_aggregate(
    ts: &Vec<Tok>,
    depth: u32,
    f: AggFn,
    n: usize,
    p: usize,
) -> (r: Result<(Expr, usize), Fault>)
    ensures
        r == aggregate_at(ts@, depth, f, n, p),
    decreases depth, 58int, 0int,
{
    if word_is(peek(ts, p), Kw::Distinct) {
        let (e, q): (Expr, usize) = parse_prec(ts, depth, 1, p + 1)?;
        let (_, r): ((), usize) = parse_mark(ts, q, Punct::RParen)?;
        if word_is(peek(ts, r), Kw::Filter) {
            let (c, s): (Expr, usize) = parse_filter(ts, depth, r + 1)?;
            Ok(
                (
                    Expr::Agg(
                        f,
                        true,
                        Box::new(
                            Expr::Case(
                                Box::new(
                                    Whens::Cons(Box::new(c), Box::new(e), Box::new(Whens::Nil)),
                                ),
                                Box::new(Expr::Lit(Datum::Null)),
                            ),
                        ),
                    ),
                    s,
                ),
            )
        } else {
            Ok((Expr::Agg(f, true, Box::new(e)), r))
        }
    } else {
        let (e, q): (Expr, usize) = parse_prec(ts, depth, 1, p)?;
        let (_, r): ((), usize) = parse_mark(ts, q, Punct::RParen)?;
        if word_is(peek(ts, r), Kw::Filter) {
            let (c, s): (Expr, usize) = parse_filter(ts, depth, r + 1)?;
            Ok(
                (
                    Expr::Agg(
                        f,
                        false,
                        Box::new(
                            Expr::Case(
                                Box::new(
                                    Whens::Cons(Box::new(c), Box::new(e), Box::new(Whens::Nil)),
                                ),
                                Box::new(Expr::Lit(Datum::Null)),
                            ),
                        ),
                    ),
                    s,
                ),
            )
        } else if word_is(peek(ts, r), Kw::Over) {
            parse_over(ts, depth, WindowFn::Agg(f), n, e, r + 1)
        } else {
            Ok((Expr::Agg(f, false, Box::new(e)), r))
        }
    }
}

fn parse_filter(ts: &Vec<Tok>, depth: u32, p: usize) -> (r: Result<(Expr, usize), Fault>)
    ensures
        r == filter_at(ts@, depth, p),
    decreases depth, 57int, 0int,
{
    let (_, q): ((), usize) = parse_mark(ts, p, Punct::LParen)?;
    let (_, r): ((), usize) = parse_word(ts, q, Kw::Where)?;
    let (c, s): (Expr, usize) = parse_prec(ts, depth, 1, r)?;
    let (_, t): ((), usize) = parse_mark(ts, s, Punct::RParen)?;
    Ok((c, t))
}

fn parse_ranked(
    ts: &Vec<Tok>,
    depth: u32,
    f: WindowFn,
    n: usize,
    p: usize,
) -> (r: Result<(Expr, usize), Fault>)
    ensures
        r == ranked_at(ts@, depth, f, n, p),
    decreases depth, 58int, 0int,
{
    let (_, q): ((), usize) = parse_mark(ts, p, Punct::RParen)?;
    let (_, r): ((), usize) = parse_word(ts, q, Kw::Over)?;
    parse_over(ts, depth, f, n, Expr::Lit(Datum::Null), r)
}

fn parse_beside(
    ts: &Vec<Tok>,
    depth: u32,
    f: WindowFn,
    n: usize,
    p: usize,
) -> (r: Result<(Expr, usize), Fault>)
    ensures
        r == beside_at(ts@, depth, f, n, p),
    decreases depth, 58int, 0int,
{
    let (e, q): (Expr, usize) = parse_prec(ts, depth, 1, p)?;
    let (_, r): ((), usize) = parse_mark(ts, q, Punct::RParen)?;
    let (_, s): ((), usize) = parse_word(ts, r, Kw::Over)?;
    parse_over(ts, depth, f, n, e, s)
}

fn parse_over(
    ts: &Vec<Tok>,
    depth: u32,
    f: WindowFn,
    n: usize,
    arg: Expr,
    p: usize,
) -> (r: Result<(Expr, usize), Fault>)
    ensures
        r == over_at(ts@, depth, f, n, arg, p),
    decreases depth, 57int, 1int,
{
    let (_, q): ((), usize) = parse_mark(ts, p, Punct::LParen)?;
    let (partition, r): (Exprs, usize) = parse_partition(ts, depth, q)?;
    if word_is(peek(ts, r), Kw::Order) {
        let (_, s): ((), usize) = parse_word(ts, r + 1, Kw::By)?;
        let (orders, t): (Orders, usize) = parse_orders(ts, depth, s)?;
        let (_, u): ((), usize) = parse_mark(ts, t, Punct::RParen)?;
        Ok((Expr::Window(f, n, Box::new(Over { arg, partition, orders })), u))
    } else {
        let (_, s): ((), usize) = parse_mark(ts, r, Punct::RParen)?;
        Ok((Expr::Window(f, n, Box::new(Over { arg, partition, orders: Orders::Nil })), s))
    }
}

fn parse_partition(ts: &Vec<Tok>, depth: u32, p: usize) -> (r: Result<(Exprs, usize), Fault>)
    ensures
        r == partition_at(ts@, depth, p),
    decreases depth, 57int, 0int,
{
    if word_is(peek(ts, p), Kw::Partition) {
        let (_, q): ((), usize) = parse_word(ts, p + 1, Kw::By)?;
        parse_exprs(ts, depth, q)
    } else {
        Ok((Exprs::Nil, p))
    }
}

fn parse_case(ts: &Vec<Tok>, depth: u32, p: usize) -> (r: Result<(Expr, usize), Fault>)
    ensures
        r == case_at(ts@, depth, p),
    decreases depth, 64int, 0int,
{
    if word_is(peek(ts, p), Kw::When) {
        parse_conditions(ts, depth, p)
    } else {
        let (x, q): (Expr, usize) = parse_prec(ts, depth, 1, p)?;
        let (whens, r): (Whens, usize) = parse_whens(ts, depth, q)?;
        let (otherwise, s): ((bool, Expr), usize) = parse_condition(ts, depth, Kw::Else, r)?;
        let (_, t): ((), usize) = parse_word(ts, s, Kw::End)?;
        if otherwise.0 {
            Ok((Expr::Switch(Box::new(x), Box::new(whens), Box::new(otherwise.1)), t))
        } else {
            Ok((Expr::Switch(Box::new(x), Box::new(whens), Box::new(Expr::Lit(Datum::Null))), t))
        }
    }
}

fn parse_conditions(ts: &Vec<Tok>, depth: u32, p: usize) -> (r: Result<(Expr, usize), Fault>)
    ensures
        r == conditions_at(ts@, depth, p),
    decreases depth, 63int, 0int,
{
    let (whens, q): (Whens, usize) = parse_whens(ts, depth, p)?;
    let (otherwise, r): ((bool, Expr), usize) = parse_condition(ts, depth, Kw::Else, q)?;
    let (_, s): ((), usize) = parse_word(ts, r, Kw::End)?;
    if otherwise.0 {
        Ok((Expr::Case(Box::new(whens), Box::new(otherwise.1)), s))
    } else {
        Ok((Expr::Case(Box::new(whens), Box::new(Expr::Lit(Datum::Null))), s))
    }
}

fn parse_whens(ts: &Vec<Tok>, depth: u32, p: usize) -> (r: Result<(Whens, usize), Fault>)
    ensures
        r == whens_at(ts@, depth, p),
    decreases depth, 55int, ts.len() - p,
{
    let (_, q): ((), usize) = parse_word(ts, p, Kw::When)?;
    let (condition, r): (Expr, usize) = parse_prec(ts, depth, 1, q)?;
    let (_, s): ((), usize) = parse_word(ts, r, Kw::Then)?;
    let (result, t): (Expr, usize) = parse_prec(ts, depth, 1, s)?;
    if word_is(peek(ts, t), Kw::When) && goes_on(ts, p, t) {
        let (rest, u): (Whens, usize) = parse_whens(ts, depth, t)?;
        Ok((Whens::Cons(Box::new(condition), Box::new(result), Box::new(rest)), u))
    } else {
        Ok((Whens::Cons(Box::new(condition), Box::new(result), Box::new(Whens::Nil)), t))
    }
}

fn parse_insert(ts: &Vec<Tok>, p: usize) -> (r: Result<(Stmt, usize), Fault>)
    ensures
        r == insert_at(ts@, p),
{
    let (_, q): ((), usize) = parse_word(ts, p, Kw::Into)?;
    let (table, r): (Name, usize) = parse_name(ts, q)?;
    let (columns, s): (Idents, usize) = parse_insert_columns(ts, r)?;
    if word_is(peek(ts, s), Kw::Default) {
        let (_, t): ((), usize) = parse_word(ts, s + 1, Kw::Values)?;
        Ok((Stmt::Insert(table, Box::new(columns), Box::new(Feed::Fillers)), t))
    } else if word_is(peek(ts, s), Kw::Values) {
        let (rows, t): (ExprRows, usize) = parse_expr_rows(ts, MAX_DEPTH, s + 1)?;
        Ok((Stmt::Insert(table, Box::new(columns), Box::new(Feed::Values(Box::new(rows)))), t))
    } else {
        let (feed, t): (Query, usize) = parse_query(ts, MAX_DEPTH, s)?;
        Ok((Stmt::Insert(table, Box::new(columns), Box::new(Feed::Query(Box::new(feed)))), t))
    }
}

fn parse_insert_columns(ts: &Vec<Tok>, p: usize) -> (r: Result<(Idents, usize), Fault>)
    ensures
        r == insert_columns_at(ts@, p),
{
    if peek(ts, p) == Tok::Mark(Punct::LParen)
        && !word_is(peek(ts, p + 1), Kw::Select)
        && !word_is(peek(ts, p + 1), Kw::Values)
    {
        parse_ident_list(ts, p)
    } else {
        Ok((Idents::Nil, p))
    }
}

fn parse_update(ts: &Vec<Tok>, p: usize) -> (r: Result<(Stmt, usize), Fault>)
    ensures
        r == update_at(ts@, p),
{
    let (table, q): (Name, usize) = parse_name(ts, p)?;
    let (_, r): ((), usize) = parse_word(ts, q, Kw::SetTo)?;
    let (assigns, s): (Assigns, usize) = parse_assigns(ts, r)?;
    let (filter, t): ((bool, Expr), usize) = parse_condition(ts, MAX_DEPTH, Kw::Where, s)?;
    Ok((Stmt::Update(table, Box::new(assigns), Box::new(filter.1)), t))
}

fn parse_assigns(ts: &Vec<Tok>, p: usize) -> (r: Result<(Assigns, usize), Fault>)
    ensures
        r == assigns_at(ts@, p),
    decreases ts.len() - p,
{
    let (column, q): (usize, usize) = parse_ident(ts, p)?;
    let (_, r): ((), usize) = parse_mark(ts, q, Punct::Eq)?;
    let (value, s): (Expr, usize) = parse_prec(ts, MAX_DEPTH, 1, r)?;
    if peek(ts, s) == Tok::Mark(Punct::Comma) && goes_on(ts, p, s + 1) {
        let (rest, t): (Assigns, usize) = parse_assigns(ts, s + 1)?;
        Ok((Assigns::Cons(column, Box::new(value), Box::new(rest)), t))
    } else {
        Ok((Assigns::Cons(column, Box::new(value), Box::new(Assigns::Nil)), s))
    }
}

fn parse_delete(ts: &Vec<Tok>, p: usize) -> (r: Result<(Stmt, usize), Fault>)
    ensures
        r == delete_at(ts@, p),
{
    let (_, q): ((), usize) = parse_word(ts, p, Kw::From)?;
    let (table, r): (Name, usize) = parse_name(ts, q)?;
    let (filter, s): ((bool, Expr), usize) = parse_condition(ts, MAX_DEPTH, Kw::Where, r)?;
    Ok((Stmt::Delete(table, Box::new(filter.1)), s))
}

fn parse_on_conflict(ts: &Vec<Tok>, stmt: Stmt, p: usize) -> (r: Result<(Stmt, usize), Fault>)
    ensures
        r == on_conflict_at(ts@, stmt, p),
{
    if word_is(peek(ts, p), Kw::On) {
        let (_, q): ((), usize) = parse_word(ts, p + 1, Kw::Conflict)?;
        let (column, r): (Option<usize>, usize) = parse_conflict_column(ts, q)?;
        let (_, s): ((), usize) = parse_word(ts, r, Kw::Do)?;
        let (action, t): (Conflict, usize) = parse_conflict_action(ts, column, s)?;
        match stmt {
            Stmt::Insert(n, names, feed) => Ok((Stmt::Upsert(n, names, feed, Box::new(action)), t)),
            _ => Err(Fault::Syntax { at: p }),
        }
    } else {
        Ok((stmt, p))
    }
}

fn parse_conflict_column(ts: &Vec<Tok>, p: usize) -> (r: Result<(Option<usize>, usize), Fault>)
    ensures
        r == conflict_column_at(ts@, p),
{
    if peek(ts, p) == Tok::Mark(Punct::LParen) {
        let (n, q): (usize, usize) = parse_ident(ts, p + 1)?;
        let (_, r): ((), usize) = parse_mark(ts, q, Punct::RParen)?;
        Ok((Some(n), r))
    } else {
        Ok((None, p))
    }
}

fn parse_conflict_action(
    ts: &Vec<Tok>,
    column: Option<usize>,
    p: usize,
) -> (r: Result<(Conflict, usize), Fault>)
    ensures
        r == conflict_action_at(ts@, column, p),
{
    if word_is(peek(ts, p), Kw::Nothing) {
        Ok((Conflict::Nothing(column), p + 1))
    } else {
        let (_, q): ((), usize) = parse_word(ts, p, Kw::Update)?;
        let (_, r): ((), usize) = parse_word(ts, q, Kw::SetTo)?;
        let (assigns, s): (Assigns, usize) = parse_assigns(ts, r)?;
        let (filter, t): ((bool, Expr), usize) = parse_condition(ts, MAX_DEPTH, Kw::Where, s)?;
        match column {
            Some(n) => Ok((Conflict::Update(n, Box::new(assigns), Box::new(filter.1)), t)),
            None => Err(Fault::Syntax { at: p }),
        }
    }
}

fn parse_returning(ts: &Vec<Tok>, stmt: Stmt, p: usize) -> (r: Result<(Stmt, usize), Fault>)
    ensures
        r == returning_at(ts@, stmt, p),
{
    if word_is(peek(ts, p), Kw::Returning) {
        let (items, q): (Items, usize) = parse_items(ts, MAX_DEPTH, p + 1)?;
        Ok((Stmt::Returning(Box::new(stmt), Box::new(items)), q))
    } else {
        Ok((stmt, p))
    }
}

fn parse_create(ts: &Vec<Tok>, p: usize) -> (r: Result<(Stmt, usize), Fault>)
    ensures
        r == create_at(ts@, p),
{
    match peek(ts, p) {
        Tok::Word(Kw::Table, _) => parse_create_table(ts, p + 1),
        Tok::Word(Kw::Temp, _) => {
            let (_, q): ((), usize) = parse_word(ts, p + 1, Kw::Table)?;
            parse_create_table(ts, q)
        },
        Tok::Word(Kw::Temporary, _) => {
            let (_, q): ((), usize) = parse_word(ts, p + 1, Kw::Table)?;
            parse_create_table(ts, q)
        },
        Tok::Word(Kw::Index, _) => parse_create_index(ts, p + 1),
        Tok::Word(Kw::Schema, _) => parse_create_schema(ts, p + 1),
        Tok::Word(Kw::Sequence, _) => {
            let (n, q): (Name, usize) = parse_name(ts, p + 1)?;
            Ok((Stmt::CreateSequence(n), q))
        },
        Tok::Word(Kw::Role, _) => parse_create_role(ts, p + 1),
        Tok::Word(Kw::User, _) => parse_create_role(ts, p + 1),
        Tok::Word(Kw::Type, _) => {
            let (n, q): (usize, usize) = parse_ident(ts, p + 1)?;
            Ok((Stmt::Define(Box::new(Def::Type(n))), q))
        },
        Tok::Word(Kw::Cast, _) => parse_create_cast(ts, p + 1),
        Tok::Word(Kw::Function, _) => parse_create_function(ts, p + 1),
        Tok::Word(Kw::Transform, _) => Err(Fault::Malformed { tag: Tag::CreateTransform }),
        _ => Err(Fault::Syntax { at: p }),
    }
}

fn parse_create_schema(ts: &Vec<Tok>, p: usize) -> (r: Result<(Stmt, usize), Fault>)
    ensures
        r == create_schema_at(ts@, p),
{
    let (n, q): (Option<usize>, usize) = parse_schema_name(ts, p)?;
    let (tables, r): (TableDefs, usize) = parse_schema_tables(ts, q)?;
    Ok((Stmt::CreateSchema(n, Box::new(tables)), r))
}

fn parse_schema_name(ts: &Vec<Tok>, p: usize) -> (r: Result<(Option<usize>, usize), Fault>)
    ensures
        r == schema_name_at(ts@, p),
{
    if word_is(peek(ts, p), Kw::Authorization) {
        parse_schema_owner(ts, p + 1)
    } else {
        let (n, q): (usize, usize) = parse_ident(ts, p)?;
        if word_is(peek(ts, q), Kw::Authorization) {
            let (_, r): (Option<usize>, usize) = parse_schema_owner(ts, q + 1)?;
            Ok((Some(n), r))
        } else {
            Ok((Some(n), q))
        }
    }
}

fn parse_schema_owner(ts: &Vec<Tok>, p: usize) -> (r: Result<(Option<usize>, usize), Fault>)
    ensures
        r == schema_owner_at(ts@, p),
{
    if word_is(peek(ts, p), Kw::CurrentUser)
        || word_is(peek(ts, p), Kw::SessionUser)
        || word_is(peek(ts, p), Kw::CurrentRole)
    {
        Ok((None, p + 1))
    } else {
        let (n, q): (usize, usize) = parse_ident(ts, p)?;
        Ok((Some(n), q))
    }
}

fn parse_schema_tables(ts: &Vec<Tok>, p: usize) -> (r: Result<(TableDefs, usize), Fault>)
    ensures
        r == schema_tables_at(ts@, p),
    decreases ts.len() - p,
{
    if word_is(peek(ts, p), Kw::Create) && word_is(peek(ts, p + 1), Kw::Table) {
        let (s, q): (Stmt, usize) = parse_create_table(ts, p + 2)?;
        match s {
            Stmt::CreateTable(n, quiet, cs, parent) => if goes_on(ts, p, q) {
                let (rest, r): (TableDefs, usize) = parse_schema_tables(ts, q)?;
                Ok((TableDefs::Cons(n, quiet, cs, parent, Box::new(rest)), r))
            } else {
                Ok((TableDefs::Cons(n, quiet, cs, parent, Box::new(TableDefs::Nil)), q))
            },
            _ => Err(Fault::Syntax { at: p }),
        }
    } else {
        Ok((TableDefs::Nil, p))
    }
}

fn parse_type_word(ts: &Vec<Tok>, p: usize) -> (r: Result<(usize, usize), Fault>)
    ensures
        r == type_word_at(ts@, p),
{
    match peek(ts, p) {
        Tok::Word(_, n) => Ok((n, p + 1)),
        _ => Err(Fault::Syntax { at: p }),
    }
}

fn parse_type_words(ts: &Vec<Tok>, p: usize) -> (r: Result<(Idents, usize), Fault>)
    ensures
        r == type_words_at(ts@, p),
    decreases ts.len() - p,
{
    if peek(ts, p) == Tok::Mark(Punct::RParen) {
        Ok((Idents::Nil, p + 1))
    } else {
        let (n, q): (usize, usize) = parse_type_word(ts, p)?;
        if peek(ts, q) == Tok::Mark(Punct::Comma) && goes_on(ts, p, q + 1) {
            let (rest, r): (Idents, usize) = parse_type_words(ts, q + 1)?;
            Ok((Idents::Cons(n, Box::new(rest)), r))
        } else {
            let (_, r): ((), usize) = parse_mark(ts, q, Punct::RParen)?;
            Ok((Idents::Cons(n, Box::new(Idents::Nil)), r))
        }
    }
}

fn parse_signature(ts: &Vec<Tok>, p: usize) -> (r: Result<(Signature, usize), Fault>)
    ensures
        r == signature_at(ts@, p),
{
    let (name, q): (usize, usize) = parse_ident(ts, p)?;
    let (_, r): ((), usize) = parse_mark(ts, q, Punct::LParen)?;
    let (args, s): (Idents, usize) = parse_type_words(ts, r)?;
    Ok((Signature { name, args }, s))
}

fn parse_create_cast(ts: &Vec<Tok>, p: usize) -> (r: Result<(Stmt, usize), Fault>)
    ensures
        r == create_cast_at(ts@, p),
{
    let (_, q): ((), usize) = parse_mark(ts, p, Punct::LParen)?;
    let (a, r): (usize, usize) = parse_type_word(ts, q)?;
    let (_, s): ((), usize) = parse_word(ts, r, Kw::As)?;
    let (b, t): (usize, usize) = parse_type_word(ts, s)?;
    let (_, u): ((), usize) = parse_mark(ts, t, Punct::RParen)?;
    if word_is(peek(ts, u), Kw::Without) {
        let (_, v): ((), usize) = parse_word(ts, u + 1, Kw::Function)?;
        let (_, w): ((), usize) = parse_cast_use(ts, v)?;
        Ok((Stmt::Define(Box::new(Def::Cast(a, b, None))), w))
    } else {
        let (_, v): ((), usize) = parse_word(ts, u, Kw::With)?;
        let (_, w): ((), usize) = parse_word(ts, v, Kw::Function)?;
        let (f, x): (Signature, usize) = parse_signature(ts, w)?;
        let (_, y): ((), usize) = parse_cast_use(ts, x)?;
        Ok((Stmt::Define(Box::new(Def::Cast(a, b, Some(Box::new(f))))), y))
    }
}

fn parse_cast_use(ts: &Vec<Tok>, p: usize) -> (r: Result<((), usize), Fault>)
    ensures
        r == cast_use_at(ts@, p),
{
    if word_is(peek(ts, p), Kw::As) {
        if word_is(peek(ts, p + 1), Kw::Implicit) || word_is(peek(ts, p + 1), Kw::Assignment) {
            Ok(((), p + 2))
        } else {
            Err(Fault::Syntax { at: p })
        }
    } else {
        Ok(((), p))
    }
}

fn parse_create_function(ts: &Vec<Tok>, p: usize) -> (r: Result<(Stmt, usize), Fault>)
    ensures
        r == create_function_at(ts@, p),
{
    let (f, q): (Signature, usize) = parse_signature(ts, p)?;
    let (_, r): ((), usize) = parse_word(ts, q, Kw::Returns)?;
    let (result, s): (usize, usize) = parse_type_word(ts, r)?;
    let (_, t): ((), usize) = parse_function_parts(ts, s)?;
    Ok((Stmt::Define(Box::new(Def::Function(Box::new(f), result))), t))
}

fn parse_function_parts(ts: &Vec<Tok>, p: usize) -> (r: Result<((), usize), Fault>)
    ensures
        r == function_parts_at(ts@, p),
    decreases ts.len() - p,
{
    if word_is(peek(ts, p), Kw::Language) {
        let (_, q): (usize, usize) = parse_type_word(ts, p + 1)?;
        if goes_on(ts, p, q) {
            parse_function_parts(ts, q)
        } else {
            Ok(((), q))
        }
    } else if word_is(peek(ts, p), Kw::As) {
        let (_, q): ((), usize) = parse_body(ts, p + 1)?;
        if goes_on(ts, p, q) {
            parse_function_parts(ts, q)
        } else {
            Ok(((), q))
        }
    } else {
        Ok(((), p))
    }
}

fn parse_body(ts: &Vec<Tok>, p: usize) -> (r: Result<((), usize), Fault>)
    ensures
        r == body_at(ts@, p),
{
    match peek(ts, p) {
        Tok::Text(_) => Ok(((), p + 1)),
        Tok::Mark(Punct::Dollars) => parse_body_end(ts, p + 1),
        _ => Err(Fault::Syntax { at: p }),
    }
}

fn parse_body_end(ts: &Vec<Tok>, p: usize) -> (r: Result<((), usize), Fault>)
    ensures
        r == body_end_at(ts@, p),
    decreases ts.len() - p,
{
    match peek(ts, p) {
        Tok::Mark(Punct::Dollars) => Ok(((), p + 1)),
        Tok::End => Err(Fault::Syntax { at: p }),
        _ => if goes_on(ts, p, p + 1) {
            parse_body_end(ts, p + 1)
        } else {
            Err(Fault::Syntax { at: p })
        },
    }
}

fn parse_do_block(ts: &Vec<Tok>, p: usize) -> (r: Result<(Stmt, usize), Fault>)
    ensures
        r == do_block_at(ts@, p),
{
    let (_, q): ((), usize) = parse_language(ts, p)?;
    let (_, r): ((), usize) = parse_mark(ts, q, Punct::Dollars)?;
    let (vars, s): (Variables, usize) = parse_variables_clause(ts, r)?;
    let (_, t): ((), usize) = parse_word(ts, s, Kw::Begin)?;
    let (actions, u): (Actions, usize) = parse_actions(ts, MAX_DEPTH, t)?;
    let (_, v): ((), usize) = parse_word(ts, u, Kw::End)?;
    let (_, w): ((), usize) = parse_optional_semicolon(ts, v)?;
    let (_, x): ((), usize) = parse_mark(ts, w, Punct::Dollars)?;
    let (_, y): ((), usize) = parse_language(ts, x)?;
    Ok((Stmt::Do(Box::new(Block { vars, body: actions })), y))
}

fn parse_optional_semicolon(ts: &Vec<Tok>, p: usize) -> (r: Result<((), usize), Fault>)
    ensures
        r == optional_semicolon_at(ts@, p),
{
    if peek(ts, p) == Tok::Mark(Punct::Semicolon) {
        Ok(((), p + 1))
    } else {
        Ok(((), p))
    }
}

fn parse_language(ts: &Vec<Tok>, p: usize) -> (r: Result<((), usize), Fault>)
    ensures
        r == language_at(ts@, p),
{
    if word_is(peek(ts, p), Kw::Language) {
        let (_, q): (usize, usize) = parse_type_word(ts, p + 1)?;
        Ok(((), q))
    } else {
        Ok(((), p))
    }
}

fn parse_variables_clause(ts: &Vec<Tok>, p: usize) -> (r: Result<(Variables, usize), Fault>)
    ensures
        r == variables_clause_at(ts@, p),
{
    if word_is(peek(ts, p), Kw::Declare) {
        parse_variables(ts, p + 1)
    } else {
        Ok((Variables::Nil, p))
    }
}

fn parse_variables(ts: &Vec<Tok>, p: usize) -> (r: Result<(Variables, usize), Fault>)
    ensures
        r == variables_at(ts@, p),
    decreases ts.len() - p,
{
    if word_is(peek(ts, p), Kw::Begin) {
        Ok((Variables::Nil, p))
    } else {
        let (n, q): (usize, usize) = parse_ident(ts, p)?;
        let (ty, r): (DataType, usize) = parse_data_type(ts, q)?;
        let (e, s): (Expr, usize) = parse_first_value(ts, r)?;
        let (_, t): ((), usize) = parse_mark(ts, s, Punct::Semicolon)?;
        if goes_on(ts, p, t) {
            let (rest, u): (Variables, usize) = parse_variables(ts, t)?;
            Ok((Variables::Cons(n, ty, Box::new(e), Box::new(rest)), u))
        } else {
            Err(Fault::Syntax { at: p })
        }
    }
}

fn parse_first_value(ts: &Vec<Tok>, p: usize) -> (r: Result<(Expr, usize), Fault>)
    ensures
        r == first_value_at(ts@, p),
{
    if peek(ts, p) == Tok::Mark(Punct::Becomes) || peek(ts, p) == Tok::Mark(Punct::Eq) {
        parse_prec(ts, MAX_DEPTH, 1, p + 1)
    } else if word_is(peek(ts, p), Kw::Default) {
        parse_prec(ts, MAX_DEPTH, 1, p + 1)
    } else {
        Ok((Expr::Lit(Datum::Null), p))
    }
}

fn parse_actions(ts: &Vec<Tok>, depth: u32, p: usize) -> (r: Result<(Actions, usize), Fault>)
    ensures
        r == actions_at(ts@, depth, p),
    decreases depth, 81int, ts.len() - p,
{
    if word_is(peek(ts, p), Kw::End)
        || word_is(peek(ts, p), Kw::Elsif)
        || word_is(peek(ts, p), Kw::Else)
    {
        Ok((Actions::Nil, p))
    } else {
        let (a, q): (Action, usize) = parse_action(ts, depth, p)?;
        let (_, r): ((), usize) = parse_mark(ts, q, Punct::Semicolon)?;
        if goes_on(ts, p, r) {
            let (rest, s): (Actions, usize) = parse_actions(ts, depth, r)?;
            Ok((Actions::Cons(a, Box::new(rest)), s))
        } else {
            Err(Fault::Syntax { at: p })
        }
    }
}

fn parse_action(ts: &Vec<Tok>, depth: u32, p: usize) -> (r: Result<(Action, usize), Fault>)
    ensures
        r == action_at(ts@, depth, p),
    decreases depth, 80int, 0int,
{
    if word_is(peek(ts, p), Kw::If) {
        if depth == 0 {
            Err(Fault::TooDeep)
        } else {
            let (bs, q): (Branches, usize) = parse_branches(ts, depth, p + 1)?;
            let (_, r): ((), usize) = parse_word(ts, q, Kw::End)?;
            let (_, s): ((), usize) = parse_word(ts, r, Kw::If)?;
            Ok((Action::If(Box::new(bs)), s))
        }
    } else if word_is(peek(ts, p), Kw::Raise) {
        let (_, q): ((), usize) = parse_word(ts, p + 1, Kw::Notice)?;
        match peek(ts, q) {
            Tok::Text(n) => if peek(ts, q + 1) == Tok::Mark(Punct::Comma) {
                let (values, r): (Exprs, usize) = parse_exprs(ts, depth, q + 2)?;
                Ok((Action::Raise(Box::new(fill_format(Expr::Lit(Datum::Text(n)), values))), r))
            } else {
                Ok((Action::Raise(Box::new(Expr::Lit(Datum::Text(n)))), q + 1))
            },
            _ => Err(Fault::Syntax { at: q }),
        }
    } else {
        let (n, q): (usize, usize) = parse_ident(ts, p)?;
        let (_, r): ((), usize) = parse_mark(ts, q, Punct::Becomes)?;
        let (e, s): (Expr, usize) = parse_prec(ts, depth, 1, r)?;
        Ok((Action::Assign(n, Box::new(e)), s))
    }
}

fn parse_branches(ts: &Vec<Tok>, depth: u32, p: usize) -> (r: Result<(Branches, usize), Fault>)
    ensures
        r == branches_at(ts@, depth, p),
    decreases depth, 79int, ts.len() - p,
{
    if depth == 0 {
        Err(Fault::TooDeep)
    } else {
        let (c, q): (Expr, usize) = parse_prec(ts, depth, 1, p)?;
        let (_, r): ((), usize) = parse_word(ts, q, Kw::Then)?;
        let (list, s): (Actions, usize) = parse_actions(ts, depth - 1, r)?;
        if word_is(peek(ts, s), Kw::Elsif) && goes_on(ts, p, s + 1) {
            let (rest, t): (Branches, usize) = parse_branches(ts, depth, s + 1)?;
            Ok((Branches::When(Box::new(c), Box::new(list), Box::new(rest)), t))
        } else if word_is(peek(ts, s), Kw::Else) {
            let (other, t): (Actions, usize) = parse_actions(ts, depth - 1, s + 1)?;
            Ok(
                (
                    Branches::When(
                        Box::new(c),
                        Box::new(list),
                        Box::new(Branches::Else(Box::new(other))),
                    ),
                    t,
                ),
            )
        } else {
            Ok(
                (
                    Branches::When(
                        Box::new(c),
                        Box::new(list),
                        Box::new(Branches::Else(Box::new(Actions::Nil))),
                    ),
                    s,
                ),
            )
        }
    }
}

fn parse_create_role(ts: &Vec<Tok>, p: usize) -> (r: Result<(Stmt, usize), Fault>)
    ensures
        r == create_role_at(ts@, p),
{
    let (n, q): (usize, usize) = parse_ident(ts, p)?;
    let (options, r): (RoleOptions, usize) = parse_role_options(ts, q)?;
    Ok((Stmt::CreateRole(n, options), r))
}

fn parse_create_table(ts: &Vec<Tok>, p: usize) -> (r: Result<(Stmt, usize), Fault>)
    ensures
        r == create_table_at(ts@, p),
{
    let (quiet, q): (bool, usize) = parse_if_not_exists(ts, p)?;
    let (n, r): (Name, usize) = parse_name(ts, q)?;
    let (_, s): ((), usize) = parse_mark(ts, r, Punct::LParen)?;
    let (columns, t): (Columns, usize) = parse_columns(ts, s)?;
    let (_, u): ((), usize) = parse_mark(ts, t, Punct::RParen)?;
    if word_is(peek(ts, u), Kw::Inherits) {
        let (_, v): ((), usize) = parse_mark(ts, u + 1, Punct::LParen)?;
        let (parent, w): (Name, usize) = parse_name(ts, v)?;
        let (_, x): ((), usize) = parse_mark(ts, w, Punct::RParen)?;
        Ok((Stmt::CreateTable(n, quiet, Box::new(columns), Some(parent)), x))
    } else {
        Ok((Stmt::CreateTable(n, quiet, Box::new(columns), None), u))
    }
}

fn parse_if_not_exists(ts: &Vec<Tok>, p: usize) -> (r: Result<(bool, usize), Fault>)
    ensures
        r == if_not_exists_at(ts@, p),
{
    if word_is(peek(ts, p), Kw::If) {
        let (_, q): ((), usize) = parse_word(ts, p + 1, Kw::Not)?;
        let (_, r): ((), usize) = parse_word(ts, q, Kw::Exists)?;
        Ok((true, r))
    } else {
        Ok((false, p))
    }
}

fn parse_if_exists(ts: &Vec<Tok>, p: usize) -> (r: Result<(bool, usize), Fault>)
    ensures
        r == if_exists_at(ts@, p),
{
    if word_is(peek(ts, p), Kw::If) {
        let (_, q): ((), usize) = parse_word(ts, p + 1, Kw::Exists)?;
        Ok((true, q))
    } else {
        Ok((false, p))
    }
}

fn parse_columns(ts: &Vec<Tok>, p: usize) -> (r: Result<(Columns, usize), Fault>)
    ensures
        r == columns_at(ts@, p),
    decreases ts.len() - p,
{
    let (n, q): (usize, usize) = parse_ident(ts, p)?;
    let (ty, r): ((DataType, Option<Limit>), usize) = parse_column_type(ts, q)?;
    let (column, s): (Column, usize) = parse_column_options(
        ts,
        Column {
            name: n,
            ty: ty.0,
            not_null: false,
            unique: false,
            filler: Filler::Null,
            limit: ty.1,
        },
        r,
    )?;
    if peek(ts, s) == Tok::Mark(Punct::Comma) && goes_on(ts, p, s + 1) {
        let (rest, t): (Columns, usize) = parse_columns(ts, s + 1)?;
        Ok((Columns::Cons(column, Box::new(rest)), t))
    } else {
        Ok((Columns::Cons(column, Box::new(Columns::Nil)), s))
    }
}

fn parse_column_options(
    ts: &Vec<Tok>,
    column: Column,
    p: usize,
) -> (r: Result<(Column, usize), Fault>)
    ensures
        r == column_options_at(ts@, column, p),
    decreases ts.len() - p,
{
    match peek(ts, p) {
        Tok::Word(Kw::Not, _) => {
            let (_, q): ((), usize) = parse_word(ts, p + 1, Kw::Null)?;
            if goes_on(ts, p, q) {
                parse_column_options(
                    ts,
                    Column {
                        name: column.name,
                        ty: column.ty,
                        not_null: true,
                        unique: column.unique,
                        filler: column.filler,
                        limit: column.limit,
                    },
                    q,
                )
            } else {
                Err(Fault::Syntax { at: p })
            }
        },
        Tok::Word(Kw::Null, _) => parse_column_options(ts, column, p + 1),
        Tok::Word(Kw::Primary, _) => {
            let (_, q): ((), usize) = parse_word(ts, p + 1, Kw::Key)?;
            if goes_on(ts, p, q) {
                parse_column_options(
                    ts,
                    Column {
                        name: column.name,
                        ty: column.ty,
                        not_null: true,
                        unique: true,
                        filler: column.filler,
                        limit: column.limit,
                    },
                    q,
                )
            } else {
                Err(Fault::Syntax { at: p })
            }
        },
        Tok::Word(Kw::Unique, _) => parse_column_options(
            ts,
            Column {
                name: column.name,
                ty: column.ty,
                not_null: column.not_null,
                unique: true,
                filler: column.filler,
                limit: column.limit,
            },
            p + 1,
        ),
        Tok::Word(Kw::Default, _) => if word_is(peek(ts, p + 1), Kw::Nextval) {
            let (_, q): ((), usize) = parse_mark(ts, p + 2, Punct::LParen)?;
            let (name, r): (Name, usize) = parse_sequence_text(ts, q)?;
            if goes_on(ts, p, r) {
                parse_column_options(
                    ts,
                    Column {
                        name: column.name,
                        ty: column.ty,
                        not_null: column.not_null,
                        unique: column.unique,
                        filler: Filler::Next(name),
                        limit: column.limit,
                    },
                    r,
                )
            } else {
                Err(Fault::Syntax { at: p })
            }
        } else {
            let (d, q): (Datum, usize) = parse_literal(ts, p + 1)?;
            if goes_on(ts, p, q) {
                parse_column_options(
                    ts,
                    Column {
                        name: column.name,
                        ty: column.ty,
                        not_null: column.not_null,
                        unique: column.unique,
                        filler: Filler::Value(d),
                        limit: column.limit,
                    },
                    q,
                )
            } else {
                Err(Fault::Syntax { at: p })
            }
        },
        _ => Ok((column, p)),
    }
}

fn parse_create_index(ts: &Vec<Tok>, p: usize) -> (r: Result<(Stmt, usize), Fault>)
    ensures
        r == create_index_at(ts@, p),
{
    if word_is(peek(ts, p), Kw::On) {
        let (table, q): (Name, usize) = parse_name(ts, p + 1)?;
        let (columns, r): (Idents, usize) = parse_ident_list(ts, q)?;
        Ok((Stmt::CreateIndex(table, Box::new(columns)), r))
    } else {
        let (_, q): (usize, usize) = parse_ident(ts, p)?;
        let (_, r): ((), usize) = parse_word(ts, q, Kw::On)?;
        let (table, s): (Name, usize) = parse_name(ts, r)?;
        let (columns, t): (Idents, usize) = parse_ident_list(ts, s)?;
        Ok((Stmt::CreateIndex(table, Box::new(columns)), t))
    }
}

fn parse_role_options(ts: &Vec<Tok>, p: usize) -> (r: Result<(RoleOptions, usize), Fault>)
    ensures
        r == role_options_at(ts@, p),
{
    if word_is(peek(ts, p), Kw::With) {
        parse_more_role_options(
            ts,
            RoleOptions { superuser: None, login: None, password: None },
            p + 1,
        )
    } else {
        parse_more_role_options(ts, RoleOptions { superuser: None, login: None, password: None }, p)
    }
}

fn parse_more_role_options(
    ts: &Vec<Tok>,
    o: RoleOptions,
    p: usize,
) -> (r: Result<(RoleOptions, usize), Fault>)
    ensures
        r == more_role_options_at(ts@, o, p),
    decreases ts.len() - p,
{
    match peek(ts, p) {
        Tok::Word(Kw::Superuser, _) => parse_more_role_options(
            ts,
            RoleOptions { superuser: Some(true), login: o.login, password: o.password },
            p + 1,
        ),
        Tok::Word(Kw::Nosuperuser, _) => parse_more_role_options(
            ts,
            RoleOptions { superuser: Some(false), login: o.login, password: o.password },
            p + 1,
        ),
        Tok::Word(Kw::Login, _) => parse_more_role_options(
            ts,
            RoleOptions { superuser: o.superuser, login: Some(true), password: o.password },
            p + 1,
        ),
        Tok::Word(Kw::Nologin, _) => parse_more_role_options(
            ts,
            RoleOptions { superuser: o.superuser, login: Some(false), password: o.password },
            p + 1,
        ),
        Tok::Word(Kw::Password, _) => match peek(ts, p + 1) {
            Tok::Text(s) => parse_more_role_options(
                ts,
                RoleOptions { superuser: o.superuser, login: o.login, password: Some(s) },
                p + 2,
            ),
            _ => Err(Fault::Syntax { at: p }),
        },
        _ => Ok((o, p)),
    }
}

fn parse_drop(ts: &Vec<Tok>, p: usize) -> (r: Result<(Stmt, usize), Fault>)
    ensures
        r == drop_at(ts@, p),
{
    match peek(ts, p) {
        Tok::Word(Kw::Table, _) => {
            let (quiet, q): (bool, usize) = parse_if_exists(ts, p + 1)?;
            let (n, r): (Name, usize) = parse_name(ts, q)?;
            let (_, s): ((), usize) = parse_cascade(ts, r)?;
            Ok((Stmt::DropTable(n, quiet), s))
        },
        Tok::Word(Kw::Sequence, _) => {
            let (quiet, q): (bool, usize) = parse_if_exists(ts, p + 1)?;
            let (n, r): (Name, usize) = parse_name(ts, q)?;
            let (_, s): ((), usize) = parse_cascade(ts, r)?;
            Ok((Stmt::DropSequence(n, quiet), s))
        },
        Tok::Word(Kw::Role, _) => {
            let (quiet, q): (bool, usize) = parse_if_exists(ts, p + 1)?;
            let (n, r): (usize, usize) = parse_ident(ts, q)?;
            Ok((Stmt::DropRole(n, quiet), r))
        },
        Tok::Word(Kw::User, _) => {
            let (quiet, q): (bool, usize) = parse_if_exists(ts, p + 1)?;
            let (n, r): (usize, usize) = parse_ident(ts, q)?;
            Ok((Stmt::DropRole(n, quiet), r))
        },
        Tok::Word(Kw::Schema, _) => {
            let (quiet, q): (bool, usize) = parse_if_exists(ts, p + 1)?;
            let (n, r): (usize, usize) = parse_ident(ts, q)?;
            if word_is(peek(ts, r), Kw::Cascade) {
                Ok((Stmt::DropSchema(n, quiet, true), r + 1))
            } else {
                let (_, s): ((), usize) = parse_cascade(ts, r)?;
                Ok((Stmt::DropSchema(n, quiet, false), s))
            }
        },
        Tok::Word(Kw::Function, _) => {
            let (quiet, q): (bool, usize) = parse_if_exists(ts, p + 1)?;
            let (s, r): (Signature, usize) = parse_signature(ts, q)?;
            if word_is(peek(ts, r), Kw::Cascade) {
                Ok((Stmt::Define(Box::new(Def::DropFunction(Box::new(s), quiet, true))), r + 1))
            } else {
                let (_, t): ((), usize) = parse_cascade(ts, r)?;
                Ok((Stmt::Define(Box::new(Def::DropFunction(Box::new(s), quiet, false))), t))
            }
        },
        Tok::Word(Kw::Owned, _) => {
            let (_, q): ((), usize) = parse_word(ts, p + 1, Kw::By)?;
            let (n, r): (usize, usize) = parse_ident(ts, q)?;
            let (_, s): ((), usize) = parse_cascade(ts, r)?;
            Ok((Stmt::DropOwned(n), s))
        },
        _ => Err(Fault::Syntax { at: p }),
    }
}

fn parse_reassign(ts: &Vec<Tok>, p: usize) -> (r: Result<(Stmt, usize), Fault>)
    ensures
        r == reassign_at(ts@, p),
{
    let (_, q): ((), usize) = parse_word(ts, p, Kw::Owned)?;
    let (_, r): ((), usize) = parse_word(ts, q, Kw::By)?;
    let (from, s): (usize, usize) = parse_ident(ts, r)?;
    let (_, t): ((), usize) = parse_word(ts, s, Kw::To)?;
    let (to, u): (usize, usize) = parse_ident(ts, t)?;
    Ok((Stmt::ReassignOwned(from, to), u))
}

fn parse_cascade(ts: &Vec<Tok>, p: usize) -> (r: Result<((), usize), Fault>)
    ensures
        r == cascade_at(ts@, p),
{
    if word_is(peek(ts, p), Kw::Cascade) || word_is(peek(ts, p), Kw::Restrict) {
        Ok(((), p + 1))
    } else {
        Ok(((), p))
    }
}

fn parse_alter(ts: &Vec<Tok>, p: usize) -> (r: Result<(Stmt, usize), Fault>)
    ensures
        r == alter_at(ts@, p),
{
    if word_is(peek(ts, p), Kw::Role) || word_is(peek(ts, p), Kw::User) {
        let (n, q): (usize, usize) = parse_ident(ts, p + 1)?;
        let (options, r): (RoleOptions, usize) = parse_role_options(ts, q)?;
        Ok((Stmt::AlterRole(n, options), r))
    } else if word_is(peek(ts, p), Kw::Table) {
        let (n, q): (Name, usize) = parse_name(ts, p + 1)?;
        parse_alteration(ts, n, q)
    } else {
        Err(Fault::Syntax { at: p })
    }
}

fn parse_alteration(ts: &Vec<Tok>, n: Name, p: usize) -> (r: Result<(Stmt, usize), Fault>)
    ensures
        r == alteration_at(ts@, n, p),
{
    if word_is(peek(ts, p), Kw::Add) {
        let q: usize = if word_is(peek(ts, p + 1), Kw::Column) { p + 2 } else { p + 1 };
        let (name, r): (usize, usize) = parse_ident(ts, q)?;
        let (ty, s): ((DataType, Option<Limit>), usize) = parse_column_type(ts, r)?;
        let (column, t): (Column, usize) = parse_column_options(
            ts,
            Column {
                name,
                ty: ty.0,
                not_null: false,
                unique: false,
                filler: Filler::Null,
                limit: ty.1,
            },
            s,
        )?;
        Ok((Stmt::AddColumn(n, column), t))
    } else if word_is(peek(ts, p), Kw::Drop) {
        let q: usize = if word_is(peek(ts, p + 1), Kw::Column) { p + 2 } else { p + 1 };
        let (quiet, r): (bool, usize) = parse_if_exists(ts, q)?;
        let (name, s): (usize, usize) = parse_ident(ts, r)?;
        let (_, t): ((), usize) = parse_cascade(ts, s)?;
        Ok((Stmt::DropColumn(n, name, quiet), t))
    } else {
        Err(Fault::Syntax { at: p })
    }
}

fn parse_grant(ts: &Vec<Tok>, p: usize) -> (r: Result<(Stmt, usize), Fault>)
    ensures
        r == grant_at(ts@, p),
{
    match peek(ts, p) {
        Tok::Word(_, _) => if word_is(peek(ts, p + 1), Kw::To) {
            let (role, q): (usize, usize) = parse_ident(ts, p)?;
            let (_, r): ((), usize) = parse_word(ts, q, Kw::To)?;
            let (member, s): (usize, usize) = parse_ident(ts, r)?;
            let (admin, t): (bool, usize) = parse_admin_option(ts, s)?;
            let (by, u): (Option<usize>, usize) = parse_granted_by(ts, t)?;
            Ok((Stmt::GrantRole(role, member, admin, by), u))
        } else {
            parse_grant_on(ts, p)
        },
        _ => parse_grant_on(ts, p),
    }
}

fn parse_admin_option(ts: &Vec<Tok>, p: usize) -> (r: Result<(bool, usize), Fault>)
    ensures
        r == admin_option_at(ts@, p),
{
    if word_is(peek(ts, p), Kw::With) {
        let (_, q): ((), usize) = parse_word(ts, p + 1, Kw::Admin)?;
        let (_, r): ((), usize) = parse_word(ts, q, Kw::Option)?;
        Ok((true, r))
    } else {
        Ok((false, p))
    }
}

fn parse_granted_by(ts: &Vec<Tok>, p: usize) -> (r: Result<(Option<usize>, usize), Fault>)
    ensures
        r == granted_by_at(ts@, p),
{
    if word_is(peek(ts, p), Kw::Granted) {
        let (_, q): ((), usize) = parse_word(ts, p + 1, Kw::By)?;
        let (n, r): (usize, usize) = parse_ident(ts, q)?;
        Ok((Some(n), r))
    } else {
        Ok((None, p))
    }
}

fn parse_grant_on(ts: &Vec<Tok>, p: usize) -> (r: Result<(Stmt, usize), Fault>)
    ensures
        r == grant_on_at(ts@, p),
{
    let (privileges, q): (Privileges, usize) = parse_privileges(ts, p)?;
    let (_, r): ((), usize) = parse_word(ts, q, Kw::On)?;
    let (target, s): (Target, usize) = parse_target(ts, r)?;
    let (_, t): ((), usize) = parse_word(ts, s, Kw::To)?;
    let (grantee, u): (Grantee, usize) = parse_grantee(ts, t)?;
    Ok((Stmt::Grant(privileges, target, grantee), u))
}

fn parse_revoke(ts: &Vec<Tok>, p: usize) -> (r: Result<(Stmt, usize), Fault>)
    ensures
        r == revoke_at(ts@, p),
{
    if word_is(peek(ts, p), Kw::Grant) && word_is(peek(ts, p + 1), Kw::Option) {
        Err(Fault::GrantOption)
    } else if word_is(peek(ts, p), Kw::Admin) && word_is(peek(ts, p + 1), Kw::Option) {
        let (_, q): ((), usize) = parse_word(ts, p + 2, Kw::For)?;
        parse_revoke_role(ts, true, q)
    } else {
        match peek(ts, p) {
            Tok::Word(_, _) => if word_is(peek(ts, p + 1), Kw::From) {
                parse_revoke_role(ts, false, p)
            } else {
                parse_revoke_on(ts, p)
            },
            _ => parse_revoke_on(ts, p),
        }
    }
}

fn parse_revoke_on(ts: &Vec<Tok>, p: usize) -> (r: Result<(Stmt, usize), Fault>)
    ensures
        r == revoke_on_at(ts@, p),
{
    let (privileges, q): (Privileges, usize) = parse_privileges(ts, p)?;
    let (_, r): ((), usize) = parse_word(ts, q, Kw::On)?;
    let (target, s): (Target, usize) = parse_target(ts, r)?;
    let (_, t): ((), usize) = parse_word(ts, s, Kw::From)?;
    let (grantee, u): (Grantee, usize) = parse_grantee(ts, t)?;
    Ok((Stmt::Revoke(privileges, target, grantee), u))
}

fn parse_revoke_role(ts: &Vec<Tok>, admin: bool, p: usize) -> (r: Result<(Stmt, usize), Fault>)
    ensures
        r == revoke_role_at(ts@, admin, p),
{
    let (role, q): (usize, usize) = parse_ident(ts, p)?;
    let (_, r): ((), usize) = parse_word(ts, q, Kw::From)?;
    let (member, s): (usize, usize) = parse_ident(ts, r)?;
    let (by, t): (Option<usize>, usize) = parse_granted_by(ts, s)?;
    Ok((Stmt::RevokeRole(role, member, admin, by), t))
}

fn parse_privileges(ts: &Vec<Tok>, p: usize) -> (r: Result<(Privileges, usize), Fault>)
    ensures
        r == privileges_at(ts@, p),
{
    if word_is(peek(ts, p), Kw::All) {
        if word_is(peek(ts, p + 1), Kw::Privileges) {
            Ok(
                (
                    Privileges {
                        select: true,
                        insert: true,
                        update: true,
                        delete: true,
                        create: true,
                    },
                    p + 2,
                ),
            )
        } else {
            Ok(
                (
                    Privileges {
                        select: true,
                        insert: true,
                        update: true,
                        delete: true,
                        create: true,
                    },
                    p + 1,
                ),
            )
        }
    } else {
        parse_more_privileges(
            ts,
            Privileges {
                select: false,
                insert: false,
                update: false,
                delete: false,
                create: false,
            },
            p,
        )
    }
}

fn parse_more_privileges(
    ts: &Vec<Tok>,
    have: Privileges,
    p: usize,
) -> (r: Result<(Privileges, usize), Fault>)
    ensures
        r == more_privileges_at(ts@, have, p),
    decreases ts.len() - p,
{
    let (more, q): (Privileges, usize) = parse_privilege(ts, have, p)?;
    if peek(ts, q) == Tok::Mark(Punct::Comma) && goes_on(ts, p, q + 1) {
        parse_more_privileges(ts, more, q + 1)
    } else {
        Ok((more, q))
    }
}

fn parse_privilege(
    ts: &Vec<Tok>,
    have: Privileges,
    p: usize,
) -> (r: Result<(Privileges, usize), Fault>)
    ensures
        r == privilege_at(ts@, have, p),
{
    match peek(ts, p) {
        Tok::Word(Kw::Select, _) => Ok(
            (
                Privileges {
                    select: true,
                    insert: have.insert,
                    update: have.update,
                    delete: have.delete,
                    create: have.create,
                },
                p + 1,
            ),
        ),
        Tok::Word(Kw::Insert, _) => Ok(
            (
                Privileges {
                    select: have.select,
                    insert: true,
                    update: have.update,
                    delete: have.delete,
                    create: have.create,
                },
                p + 1,
            ),
        ),
        Tok::Word(Kw::Update, _) => Ok(
            (
                Privileges {
                    select: have.select,
                    insert: have.insert,
                    update: true,
                    delete: have.delete,
                    create: have.create,
                },
                p + 1,
            ),
        ),
        Tok::Word(Kw::Delete, _) => Ok(
            (
                Privileges {
                    select: have.select,
                    insert: have.insert,
                    update: have.update,
                    delete: true,
                    create: have.create,
                },
                p + 1,
            ),
        ),
        Tok::Word(Kw::Create, _) => Ok(
            (
                Privileges {
                    select: have.select,
                    insert: have.insert,
                    update: have.update,
                    delete: have.delete,
                    create: true,
                },
                p + 1,
            ),
        ),
        _ => Err(Fault::Syntax { at: p }),
    }
}

fn parse_target(ts: &Vec<Tok>, p: usize) -> (r: Result<(Target, usize), Fault>)
    ensures
        r == target_at(ts@, p),
{
    if word_is(peek(ts, p), Kw::Schema) {
        let (n, q): (usize, usize) = parse_ident(ts, p + 1)?;
        Ok((Target::Schema(n), q))
    } else if word_is(peek(ts, p), Kw::Table) {
        let (n, q): (Name, usize) = parse_name(ts, p + 1)?;
        Ok((Target::Table(n), q))
    } else {
        let (n, q): (Name, usize) = parse_name(ts, p)?;
        Ok((Target::Table(n), q))
    }
}

fn parse_grantee(ts: &Vec<Tok>, p: usize) -> (r: Result<(Grantee, usize), Fault>)
    ensures
        r == grantee_at(ts@, p),
{
    if word_is(peek(ts, p), Kw::CurrentUser) || word_is(peek(ts, p), Kw::SessionUser) {
        Ok((Grantee::CurrentUser, p + 1))
    } else {
        let (n, q): (usize, usize) = parse_ident(ts, p)?;
        Ok((Grantee::Role(n), q))
    }
}

fn parse_work(ts: &Vec<Tok>, p: usize) -> (r: Result<((), usize), Fault>)
    ensures
        r == work_at(ts@, p),
{
    if word_is(peek(ts, p), Kw::Work) || word_is(peek(ts, p), Kw::Transaction) {
        Ok(((), p + 1))
    } else {
        Ok(((), p))
    }
}

fn parse_modes(ts: &Vec<Tok>, m: TxnModes, p: usize) -> (r: Result<(TxnModes, usize), Fault>)
    ensures
        r == modes_at(ts@, m, p),
    decreases ts.len() - p,
{
    match peek(ts, p) {
        Tok::Word(Kw::Isolation, _) => {
            let (_, q): ((), usize) = parse_word(ts, p + 1, Kw::Level)?;
            let (level, r): (IsolationLevel, usize) = parse_level(ts, q)?;
            if goes_on(ts, p, r) {
                parse_more_modes(
                    ts,
                    TxnModes {
                        isolation: Some(level),
                        read_only: m.read_only,
                        deferrable: m.deferrable,
                    },
                    r,
                )
            } else {
                Err(Fault::Syntax { at: p })
            }
        },
        Tok::Word(Kw::Read, _) => if word_is(peek(ts, p + 1), Kw::Only) {
            parse_more_modes(
                ts,
                TxnModes {
                    isolation: m.isolation,
                    read_only: Some(true),
                    deferrable: m.deferrable,
                },
                p + 2,
            )
        } else {
            let (_, q): ((), usize) = parse_word(ts, p + 1, Kw::Write)?;
            if goes_on(ts, p, q) {
                parse_more_modes(
                    ts,
                    TxnModes {
                        isolation: m.isolation,
                        read_only: Some(false),
                        deferrable: m.deferrable,
                    },
                    q,
                )
            } else {
                Err(Fault::Syntax { at: p })
            }
        },
        Tok::Word(Kw::Deferrable, _) => {
            parse_more_modes(
                ts,
                TxnModes { isolation: m.isolation, read_only: m.read_only, deferrable: Some(true) },
                p + 1,
            )
        },
        Tok::Word(Kw::Not, _) => {
            let (_, q): ((), usize) = parse_word(ts, p + 1, Kw::Deferrable)?;
            if goes_on(ts, p, q) {
                parse_more_modes(
                    ts,
                    TxnModes {
                        isolation: m.isolation,
                        read_only: m.read_only,
                        deferrable: Some(false),
                    },
                    q,
                )
            } else {
                Err(Fault::Syntax { at: p })
            }
        },
        _ => Ok((m, p)),
    }
}

fn parse_more_modes(ts: &Vec<Tok>, m: TxnModes, p: usize) -> (r: Result<(TxnModes, usize), Fault>)
    ensures
        r == more_modes_at(ts@, m, p),
    decreases ts.len() - p,
{
    if peek(ts, p) == Tok::Mark(Punct::Comma) {
        parse_modes(ts, m, p + 1)
    } else {
        Ok((m, p))
    }
}

fn parse_level(ts: &Vec<Tok>, p: usize) -> (r: Result<(IsolationLevel, usize), Fault>)
    ensures
        r == level_at(ts@, p),
{
    if word_is(peek(ts, p), Kw::Serializable) {
        Ok((IsolationLevel::Serializable, p + 1))
    } else if word_is(peek(ts, p), Kw::Repeatable) && word_is(peek(ts, p + 1), Kw::Read) {
        Ok((IsolationLevel::SnapshotIsolation, p + 2))
    } else if word_is(peek(ts, p), Kw::Snapshot) && word_is(peek(ts, p + 1), Kw::Isolation) {
        Ok((IsolationLevel::SnapshotIsolation, p + 2))
    } else if word_is(peek(ts, p), Kw::Read)
        && (word_is(peek(ts, p + 1), Kw::Committed) || word_is(peek(ts, p + 1), Kw::Uncommitted))
    {
        Ok((IsolationLevel::ReadCommitted, p + 2))
    } else {
        Err(Fault::Syntax { at: p })
    }
}

fn parse_prepared_end(ts: &Vec<Tok>, p: usize) -> (r: Result<(Stmt, usize), Fault>)
    ensures
        r == prepared_end_at(ts@, p),
{
    match peek(ts, p) {
        Tok::Text(n) => Ok((Stmt::EndPrepared(n), p + 1)),
        _ => Err(Fault::Syntax { at: p }),
    }
}

fn parse_rollback(ts: &Vec<Tok>, p: usize) -> (r: Result<(Stmt, usize), Fault>)
    ensures
        r == rollback_at(ts@, p),
{
    let (_, q): ((), usize) = parse_work(ts, p)?;
    if word_is(peek(ts, q), Kw::To) {
        if word_is(peek(ts, q + 1), Kw::Savepoint) {
            let (n, r): (usize, usize) = parse_ident(ts, q + 2)?;
            Ok((Stmt::RollbackTo(n), r))
        } else {
            let (n, r): (usize, usize) = parse_ident(ts, q + 1)?;
            Ok((Stmt::RollbackTo(n), r))
        }
    } else {
        Ok((Stmt::Rollback, q))
    }
}

fn parse_assign(ts: &Vec<Tok>, local: bool, p: usize) -> (r: Result<(Stmt, usize), Fault>)
    ensures
        r == assign_at(ts@, local, p),
{
    let (n, q): (usize, usize) = parse_ident(ts, p)?;
    if peek(ts, q) == Tok::Mark(Punct::Eq) || word_is(peek(ts, q), Kw::To) {
        let (value, r): (Setting, usize) = parse_setting(ts, q + 1)?;
        Ok((Stmt::Assign(local, n, value), r))
    } else {
        Err(Fault::Syntax { at: q })
    }
}

fn parse_setting(ts: &Vec<Tok>, p: usize) -> (r: Result<(Setting, usize), Fault>)
    ensures
        r == setting_at(ts@, p),
{
    match peek(ts, p) {
        Tok::Word(k, n) => if k == Kw::Default {
            Ok((Setting::Default, p + 1))
        } else if peek(ts, p + 1) == Tok::Mark(Punct::Comma) {
            let (rest, q): (Idents, usize) = parse_words(ts, p + 2)?;
            Ok((Setting::Words(Box::new(Idents::Cons(n, Box::new(rest)))), q))
        } else {
            Ok((Setting::Word(n), p + 1))
        },
        Tok::Text(s) => Ok((Setting::Word(s), p + 1)),
        Tok::Num(n) => Ok((Setting::Number(n), p + 1)),
        _ => Err(Fault::Syntax { at: p }),
    }
}

fn parse_words(ts: &Vec<Tok>, p: usize) -> (r: Result<(Idents, usize), Fault>)
    ensures
        r == words_at(ts@, p),
    decreases ts.len() - p,
{
    match peek(ts, p) {
        Tok::Word(_, n) => if peek(ts, p + 1) == Tok::Mark(Punct::Comma) {
            let (rest, q): (Idents, usize) = parse_words(ts, p + 2)?;
            Ok((Idents::Cons(n, Box::new(rest)), q))
        } else {
            Ok((Idents::Cons(n, Box::new(Idents::Nil)), p + 1))
        },
        _ => Err(Fault::Syntax { at: p }),
    }
}

fn parse_set(ts: &Vec<Tok>, p: usize) -> (r: Result<(Stmt, usize), Fault>)
    ensures
        r == set_at(ts@, p),
{
    if word_is(peek(ts, p), Kw::Local) {
        parse_assign(ts, true, p + 1)
    } else if word_is(peek(ts, p), Kw::Transaction) {
        let (m, q): (TxnModes, usize) = parse_modes(
            ts,
            TxnModes { isolation: None, read_only: None, deferrable: None },
            p + 1,
        )?;
        Ok((Stmt::SetModes(Scope::Transaction, m), q))
    } else if word_is(peek(ts, p), Kw::Constraints) {
        parse_constraints(ts, p + 1)
    } else if word_is(peek(ts, p), Kw::Session) {
        if word_is(peek(ts, p + 1), Kw::Characteristics) {
            let (_, q): ((), usize) = parse_word(ts, p + 2, Kw::As)?;
            let (_, r): ((), usize) = parse_word(ts, q, Kw::Transaction)?;
            let (m, u): (TxnModes, usize) = parse_modes(
                ts,
                TxnModes { isolation: None, read_only: None, deferrable: None },
                r,
            )?;
            Ok((Stmt::SetModes(Scope::Session, m), u))
        } else if word_is(peek(ts, p + 1), Kw::Authorization) {
            if word_is(peek(ts, p + 2), Kw::Default) {
                Ok((Stmt::ActAs(None, Tag::SetVariable), p + 3))
            } else {
                let (n, q): (usize, usize) = parse_role_word(ts, p + 2)?;
                Ok((Stmt::ActAs(Some(n), Tag::SetVariable), q))
            }
        } else {
            parse_assign(ts, false, p + 1)
        }
    } else {
        parse_assign(ts, false, p)
    }
}

fn parse_role_word(ts: &Vec<Tok>, p: usize) -> (r: Result<(usize, usize), Fault>)
    ensures
        r == role_word_at(ts@, p),
{
    match peek(ts, p) {
        Tok::Text(n) => Ok((n, p + 1)),
        _ => parse_ident(ts, p),
    }
}

fn parse_constraints(ts: &Vec<Tok>, p: usize) -> (r: Result<(Stmt, usize), Fault>)
    ensures
        r == constraints_at(ts@, p),
{
    if word_is(peek(ts, p), Kw::All) {
        let (_, q): ((), usize) = parse_checked(ts, p + 1)?;
        Ok((Stmt::SetConstraints, q))
    } else {
        let (_, q): (Idents, usize) = parse_words(ts, p)?;
        let (_, r): ((), usize) = parse_checked(ts, q)?;
        Ok((Stmt::SetConstraints, r))
    }
}

fn parse_checked(ts: &Vec<Tok>, p: usize) -> (r: Result<((), usize), Fault>)
    ensures
        r == checked_at(ts@, p),
{
    if word_is(peek(ts, p), Kw::Immediate) || word_is(peek(ts, p), Kw::Deferred) {
        Ok(((), p + 1))
    } else {
        Err(Fault::Syntax { at: p })
    }
}

fn parse_reset(ts: &Vec<Tok>, p: usize) -> (r: Result<(Stmt, usize), Fault>)
    ensures
        r == reset_at(ts@, p),
{
    if word_is(peek(ts, p), Kw::Session) && word_is(peek(ts, p + 1), Kw::Authorization) {
        Ok((Stmt::ActAs(None, Tag::Reset), p + 2))
    } else {
        parse_reset_rest(ts, p)
    }
}

fn parse_reset_rest(ts: &Vec<Tok>, p: usize) -> (r: Result<(Stmt, usize), Fault>)
    ensures
        r == reset_rest_at(ts@, p),
{
    if word_is(peek(ts, p), Kw::Transaction) {
        if word_is(peek(ts, p + 1), Kw::Isolation) {
            let (_, q): ((), usize) = parse_word(ts, p + 2, Kw::Level)?;
            Ok(
                (
                    Stmt::ResetModes(
                        TxnModes {
                            isolation: Some(IsolationLevel::ReadCommitted),
                            read_only: None,
                            deferrable: None,
                        },
                    ),
                    q,
                ),
            )
        } else if word_is(peek(ts, p + 1), Kw::Read) {
            let (_, q): ((), usize) = parse_word(ts, p + 2, Kw::Only)?;
            Ok(
                (
                    Stmt::ResetModes(
                        TxnModes { isolation: None, read_only: Some(false), deferrable: None },
                    ),
                    q,
                ),
            )
        } else {
            let (_, q): ((), usize) = parse_word(ts, p + 1, Kw::Deferrable)?;
            Ok(
                (
                    Stmt::ResetModes(
                        TxnModes { isolation: None, read_only: None, deferrable: Some(false) },
                    ),
                    q,
                ),
            )
        }
    } else {
        let (n, q): (usize, usize) = parse_ident(ts, p)?;
        Ok((Stmt::Reset(n), q))
    }
}

fn parse_amount(ts: &Vec<Tok>, p: usize) -> (r: Result<(Option<u64>, usize), Fault>)
    ensures
        r == amount_at(ts@, p),
{
    match peek(ts, p) {
        Tok::Num(n) => Ok((Some(n), p + 1)),
        Tok::Word(k, _) => if k == Kw::All {
            Ok((None, p + 1))
        } else {
            Ok((Some(1), p))
        },
        _ => Ok((Some(1), p)),
    }
}

fn parse_whither(ts: &Vec<Tok>, p: usize) -> (r: Result<(Direction, usize), Fault>)
    ensures
        r == whither_at(ts@, p),
{
    match peek(ts, p) {
        Tok::Word(k, _) => match k {
            Kw::Next => Ok((Direction::Forward(Some(1)), p + 1)),
            Kw::Prior => Ok((Direction::Backward(Some(1)), p + 1)),
            Kw::First => Ok((Direction::First, p + 1)),
            Kw::Last => Ok((Direction::Last, p + 1)),
            Kw::Forward => {
                let (n, q): (Option<u64>, usize) = parse_amount(ts, p + 1)?;
                Ok((Direction::Forward(n), q))
            },
            Kw::Backward => {
                let (n, q): (Option<u64>, usize) = parse_amount(ts, p + 1)?;
                Ok((Direction::Backward(n), q))
            },
            _ => {
                let (n, q): (Option<u64>, usize) = parse_amount(ts, p)?;
                Ok((Direction::Forward(n), q))
            },
        },
        _ => {
            let (n, q): (Option<u64>, usize) = parse_amount(ts, p)?;
            Ok((Direction::Forward(n), q))
        },
    }
}

fn parse_cursor(ts: &Vec<Tok>, p: usize) -> (r: Result<((Direction, usize), usize), Fault>)
    ensures
        r == cursor_at(ts@, p),
{
    let (d, q): (Direction, usize) = parse_whither(ts, p)?;
    if word_is(peek(ts, q), Kw::In) || word_is(peek(ts, q), Kw::From) {
        let (n, r): (usize, usize) = parse_ident(ts, q + 1)?;
        Ok(((d, n), r))
    } else {
        let (n, r): (usize, usize) = parse_ident(ts, q)?;
        Ok(((d, n), r))
    }
}

fn parse_skipped(ts: &Vec<Tok>, p: usize) -> (r: Result<((), usize), Fault>)
    ensures
        r == skipped_at(ts@, p),
    decreases ts.len() - p,
{
    if peek(ts, p) == Tok::End || peek(ts, p) == Tok::Mark(Punct::Semicolon) {
        Ok(((), p))
    } else {
        parse_skipped(ts, p + 1)
    }
}

fn parse_declare(ts: &Vec<Tok>, p: usize) -> (r: Result<(Stmt, usize), Fault>)
    ensures
        r == declare_at(ts@, p),
{
    let (n, q): (usize, usize) = parse_ident(ts, p)?;
    let r: usize = if word_is(peek(ts, q), Kw::Scroll) { q + 1 } else { q };
    let (_, s): ((), usize) = parse_word(ts, r, Kw::Cursor)?;
    let (_, t): ((), usize) = parse_word(ts, s, Kw::For)?;
    if word_is(peek(ts, t), Kw::Select)
        || word_is(peek(ts, t), Kw::Values)
        || word_is(peek(ts, t), Kw::With)
        || peek(ts, t) == Tok::Mark(Punct::LParen)
    {
        let (query, u): (Query, usize) = parse_query(ts, MAX_DEPTH, t)?;
        Ok((Stmt::Declare(n, Some(Box::new(query))), u))
    } else if t < ts.len() {
        let (_, u): ((), usize) = parse_skipped(ts, t)?;
        Ok((Stmt::Declare(n, None), u))
    } else {
        Err(Fault::Syntax { at: t })
    }
}

fn parse_statement(ts: &Vec<Tok>, p: usize) -> (r: Result<(Stmt, usize), Fault>)
    ensures
        r == statement_at(ts@, p),
{
    match peek(ts, p) {
        Tok::Word(k, _) => match k {
            Kw::Insert => {
                let (s, q): (Stmt, usize) = parse_insert(ts, p + 1)?;
                let (t, r): (Stmt, usize) = parse_on_conflict(ts, s, q)?;
                parse_returning(ts, t, r)
            },
            Kw::Update => {
                let (s, q): (Stmt, usize) = parse_update(ts, p + 1)?;
                parse_returning(ts, s, q)
            },
            Kw::Delete => {
                let (s, q): (Stmt, usize) = parse_delete(ts, p + 1)?;
                parse_returning(ts, s, q)
            },
            Kw::Create => parse_create(ts, p + 1),
            Kw::Drop => parse_drop(ts, p + 1),
            Kw::Alter => parse_alter(ts, p + 1),
            Kw::Reassign => parse_reassign(ts, p + 1),
            Kw::Do => parse_do_block(ts, p + 1),
            Kw::Grant => parse_grant(ts, p + 1),
            Kw::Revoke => parse_revoke(ts, p + 1),
            Kw::Begin => {
                let (_, q): ((), usize) = parse_work(ts, p + 1)?;
                let (m, r): (TxnModes, usize) = parse_modes(
                    ts,
                    TxnModes { isolation: None, read_only: None, deferrable: None },
                    q,
                )?;
                Ok((Stmt::Begin(Tag::Begin, m), r))
            },
            Kw::Start => {
                let (_, q): ((), usize) = parse_word(ts, p + 1, Kw::Transaction)?;
                let (m, r): (TxnModes, usize) = parse_modes(
                    ts,
                    TxnModes { isolation: None, read_only: None, deferrable: None },
                    q,
                )?;
                Ok((Stmt::Begin(Tag::StartTransaction, m), r))
            },
            Kw::Commit => if word_is(peek(ts, p + 1), Kw::Prepared) {
                parse_prepared_end(ts, p + 2)
            } else {
                let (_, q): ((), usize) = parse_work(ts, p + 1)?;
                Ok((Stmt::Commit, q))
            },
            Kw::End => {
                let (_, q): ((), usize) = parse_work(ts, p + 1)?;
                Ok((Stmt::Commit, q))
            },
            Kw::Rollback => if word_is(peek(ts, p + 1), Kw::Prepared) {
                parse_prepared_end(ts, p + 2)
            } else {
                parse_rollback(ts, p + 1)
            },
            Kw::Savepoint => {
                let (n, q): (usize, usize) = parse_ident(ts, p + 1)?;
                Ok((Stmt::Savepoint(n), q))
            },
            Kw::Release => if word_is(peek(ts, p + 1), Kw::Savepoint) {
                let (n, q): (usize, usize) = parse_ident(ts, p + 2)?;
                Ok((Stmt::Release(n), q))
            } else {
                let (n, q): (usize, usize) = parse_ident(ts, p + 1)?;
                Ok((Stmt::Release(n), q))
            },
            Kw::Declare => match parse_declare(ts, p + 1) {
                Ok((s, q)) => if q >= ts.len() || peek(ts, q) == Tok::Mark(Punct::Semicolon) {
                    Ok((s, q))
                } else {
                    Err(Fault::Malformed { tag: Tag::Declare })
                },
                Err(_) => Err(Fault::Malformed { tag: Tag::Declare }),
            },
            Kw::Fetch => match parse_cursor(ts, p + 1) {
                Ok(((d, n), q)) => if q >= ts.len() || peek(ts, q) == Tok::Mark(Punct::Semicolon) {
                    Ok((Stmt::Fetch(n, d), q))
                } else {
                    Err(Fault::Malformed { tag: Tag::Fetch })
                },
                Err(_) => Err(Fault::Malformed { tag: Tag::Fetch }),
            },
            Kw::Move => match parse_cursor(ts, p + 1) {
                Ok(((d, n), q)) => if q >= ts.len() || peek(ts, q) == Tok::Mark(Punct::Semicolon) {
                    Ok((Stmt::Move(n, d), q))
                } else {
                    Err(Fault::Malformed { tag: Tag::Move })
                },
                Err(_) => Err(Fault::Malformed { tag: Tag::Move }),
            },
            Kw::Close => match parse_ident(ts, p + 1) {
                Ok((n, q)) => if q >= ts.len() || peek(ts, q) == Tok::Mark(Punct::Semicolon) {
                    Ok((Stmt::Close(n), q))
                } else {
                    Err(Fault::Malformed { tag: Tag::Close })
                },
                Err(_) => Err(Fault::Malformed { tag: Tag::Close }),
            },
            Kw::SetTo => parse_set(ts, p + 1),
            Kw::Reset => parse_reset(ts, p + 1),
            Kw::Show => {
                let (n, q): (usize, usize) = parse_ident(ts, p + 1)?;
                Ok((Stmt::Show(n), q))
            },
            _ => {
                let (q, r): (Query, usize) = parse_query(ts, MAX_DEPTH, p)?;
                Ok((make_drawing(q), r))
            },
        },
        _ => {
            let (q, r): (Query, usize) = parse_query(ts, MAX_DEPTH, p)?;
            Ok((make_drawing(q), r))
        },
    }
}

fn parse_statements(ts: &Vec<Tok>, p: usize) -> (r: Result<(Stmts, usize), Fault>)
    ensures
        r == statements_at(ts@, p),
    decreases ts.len() - p,
{
    if peek(ts, p) == Tok::Mark(Punct::Semicolon) {
        parse_statements(ts, p + 1)
    } else if p >= ts.len() {
        Ok((Stmts::Nil, p))
    } else {
        let (first, q): (Stmt, usize) = parse_statement(ts, p)?;
        if q >= ts.len() {
            Ok((Stmts::Cons(Box::new(first), Box::new(Stmts::Nil)), q))
        } else if peek(ts, q) == Tok::Mark(Punct::Semicolon) && goes_on(ts, p, q) {
            let (rest, r): (Stmts, usize) = parse_statements(ts, q + 1)?;
            Ok((Stmts::Cons(Box::new(first), Box::new(rest)), r))
        } else {
            Err(Fault::Syntax { at: q })
        }
    }
}

/// The statements that a token sequence spells.
pub open spec fn parsed(ts: Seq<Tok>) -> Result<Stmts, Fault> {
    match statements_at(ts, 0) {
        Ok((stmts, _)) => Ok(stmts),
        Err(f) => Err(f),
    }
}

/// Reads the statements that a token sequence spells.
pub fn parse(ts: &Vec<Tok>) -> (r: Result<Stmts, Fault>)
    ensures
        r == parsed(ts@),
{
    match parse_statements(ts, 0) {
        Ok((stmts, _)) => Ok(stmts),
        Err(f) => Err(f),
    }
}

} // verus!
