//! Laws of how expressions and queries are read: what binds more tightly, and what stands for
//! what.

use vstd::prelude::*;
use crate::ast::Combine;
use crate::ast::Expr;
use crate::ast::Query;
use crate::ast::TextFn;
use crate::datum::Arith;
use crate::datum::Compare;
use crate::datum::Datum;
use crate::fault::Fault;
use crate::keyword;
use crate::keyword::Kw;
use crate::lexer::Punct;
use crate::lexer::Tok;
use crate::parser;
use crate::parser::Operator;
use crate::symbols;

verus! {

/// The operators that stand between two operands.
pub enum Infix {
    Or,
    And,
    Compare(Compare),
    Join,
    Arith(Arith),
}

/// How tightly an operator binds its operands.
pub open spec fn binding(o: Infix) -> int {
    match o {
        Infix::Or => 1,
        Infix::And => 2,
        Infix::Compare(_) => 4,
        Infix::Join => 5,
        Infix::Arith(Arith::Plus) => 6,
        Infix::Arith(Arith::Minus) => 6,
        Infix::Arith(_) => 7,
    }
}

/// Whether a token is an operator.
pub open spec fn spells(t: Tok, o: Infix) -> bool {
    match o {
        Infix::Or => parser::is_word(t, Kw::Or),
        Infix::And => parser::is_word(t, Kw::And),
        Infix::Compare(Compare::Eq) => t == Tok::Mark(Punct::Eq),
        Infix::Compare(Compare::Ne) => t == Tok::Mark(Punct::Ne),
        Infix::Compare(Compare::Lt) => t == Tok::Mark(Punct::Lt),
        Infix::Compare(Compare::Le) => t == Tok::Mark(Punct::Le),
        Infix::Compare(Compare::Gt) => t == Tok::Mark(Punct::Gt),
        Infix::Compare(Compare::Ge) => t == Tok::Mark(Punct::Ge),
        Infix::Join => t == Tok::Mark(Punct::Bars),
        Infix::Arith(Arith::Plus) => t == Tok::Mark(Punct::Plus),
        Infix::Arith(Arith::Minus) => t == Tok::Mark(Punct::Minus),
        Infix::Arith(Arith::Times) => t == Tok::Mark(Punct::Star),
        Infix::Arith(Arith::Divide) => t == Tok::Mark(Punct::Slash),
        Infix::Arith(Arith::Modulo) => t == Tok::Mark(Punct::Percent),
    }
}

/// An operator with its operands.
pub open spec fn combined(o: Infix, a: Expr, b: Expr) -> Expr {
    match o {
        Infix::Or => Expr::Or(Box::new(a), Box::new(b)),
        Infix::And => Expr::And(Box::new(a), Box::new(b)),
        Infix::Compare(c) => Expr::Compare(c, Box::new(a), Box::new(b)),
        Infix::Join => Expr::Call(
            TextFn::Join,
            symbols::ANONYMOUS,
            Box::new(a),
            Box::new(b),
            Box::new(Expr::Lit(Datum::Null)),
        ),
        Infix::Arith(x) => Expr::Arith(x, Box::new(a), Box::new(b)),
    }
}

/// Whether the tokens from `p` up to `q` are the operand `e`, with its signs and casts.
pub open spec fn is_operand(ts: Seq<Tok>, depth: u32, p: usize, e: Expr, q: usize) -> bool {
    &&& parser::unary_at(ts, depth, p) == Ok::<(Expr, usize), Fault>((e, q))
    &&& !parser::is_word(parser::tok_at(ts, p), Kw::Not)
    &&& p < q <= ts.len()
}

/// Whether no operator stands at a place.
pub open spec fn is_over(ts: Seq<Tok>, p: usize) -> bool {
    parser::operator_at(ts, 1, p) == Ok::<(Operator, usize), Fault>((Operator::Nothing, p))
}

spec fn operator_of(o: Infix) -> Operator {
    match o {
        Infix::Or => Operator::Or,
        Infix::And => Operator::And,
        Infix::Compare(c) => Operator::Compare(c),
        Infix::Join => Operator::Join,
        Infix::Arith(Arith::Plus) => Operator::Plus(Arith::Plus),
        Infix::Arith(Arith::Minus) => Operator::Plus(Arith::Minus),
        Infix::Arith(x) => Operator::Times(x),
    }
}

proof fn lemma_operator(ts: Seq<Tok>, min: u8, p: usize, o: Infix)
    requires
        spells(parser::tok_at(ts, p), o),
        p < ts.len() < usize::MAX,
    ensures
        parser::operator_at(ts, min, p) == if min <= binding(o) {
            Ok::<(Operator, usize), Fault>((operator_of(o), (p + 1) as usize))
        } else {
            Ok::<(Operator, usize), Fault>((Operator::Nothing, p))
        },
{
}

proof fn lemma_over(ts: Seq<Tok>, depth: u32, min: u8, left: Expr, p: usize)
    requires
        min >= 1,
        is_over(ts, p),
    ensures
        parser::prec_rest_at(ts, depth, min, left, p) == Ok::<(Expr, usize), Fault>((left, p)),
{
    assert(parser::operator_at(ts, min, p) == Ok::<(Operator, usize), Fault>(
        (Operator::Nothing, p),
    ));
}

proof fn lemma_loose(ts: Seq<Tok>, depth: u32, min: u8, left: Expr, p: usize, o: Infix)
    requires
        spells(parser::tok_at(ts, p), o),
        p < ts.len() < usize::MAX,
        min > binding(o),
    ensures
        parser::prec_rest_at(ts, depth, min, left, p) == Ok::<(Expr, usize), Fault>((left, p)),
{
    lemma_operator(ts, min, p, o);
}

proof fn lemma_infix(
    ts: Seq<Tok>,
    depth: u32,
    min: u8,
    left: Expr,
    p: usize,
    o: Infix,
    right: Expr,
    r: usize,
)
    requires
        spells(parser::tok_at(ts, p), o),
        p < ts.len() < usize::MAX,
        min <= binding(o),
        parser::prec_at(ts, depth, (binding(o) + 1) as u8, (p + 1) as usize) == Ok::<
            (Expr, usize),
            Fault,
        >((right, r)),
        p < r <= ts.len(),
    ensures
        parser::prec_rest_at(ts, depth, min, left, p) == parser::prec_rest_at(
            ts,
            depth,
            min,
            combined(o, left, right),
            r,
        ),
{
    lemma_operator(ts, min, p, o);
    assert(parser::beyond(ts, p, r));
    assert(parser::step_at(ts, depth, min, p, combined(o, left, right), r)
        == parser::prec_rest_at(ts, depth, min, combined(o, left, right), r));
}

proof fn lemma_operand(ts: Seq<Tok>, depth: u32, min: u8, p: usize, e: Expr, q: usize)
    requires
        is_operand(ts, depth, p, e, q),
        min <= 9,
    ensures
        parser::prec_at(ts, depth, min, p) == parser::prec_rest_at(ts, depth, min, e, q),
{
}

/// An operand with no operator behind it is the whole expression.
pub proof fn law_operand(ts: Seq<Tok>, depth: u32, p: usize, e: Expr, q: usize)
    requires
        is_operand(ts, depth, p, e, q),
        is_over(ts, q),
    ensures
        parser::prec_at(ts, depth, 1, p) == Ok::<(Expr, usize), Fault>((e, q)),
{
    lemma_operand(ts, depth, 1, p, e, q);
    lemma_over(ts, depth, 1, e, q);
}

/// Of two operators between three operands, the one that binds more tightly takes its operands
/// first: products before sums, these before joined texts, comparisons, AND and OR, in this
/// order. Of two that bind alike the left one comes first.
pub proof fn law_precedence(
    ts: Seq<Tok>,
    depth: u32,
    p: usize,
    x: Expr,
    i: usize,
    o: Infix,
    y: Expr,
    j: usize,
    u: Infix,
    z: Expr,
    k: usize,
)
    requires
        ts.len() < usize::MAX,
        is_operand(ts, depth, p, x, i),
        spells(parser::tok_at(ts, i), o),
        i < ts.len(),
        is_operand(ts, depth, (i + 1) as usize, y, j),
        spells(parser::tok_at(ts, j), u),
        j < ts.len(),
        is_operand(ts, depth, (j + 1) as usize, z, k),
        is_over(ts, k),
    ensures
        parser::prec_at(ts, depth, 1, p) == Ok::<(Expr, usize), Fault>(
            (
                if binding(u) > binding(o) {
                    combined(o, x, combined(u, y, z))
                } else {
                    combined(u, combined(o, x, y), z)
                },
                k,
            ),
        ),
{
    let a = (binding(o) + 1) as u8;
    let b = (binding(u) + 1) as u8;
    lemma_operand(ts, depth, 1, p, x, i);
    lemma_operand(ts, depth, a, (i + 1) as usize, y, j);
    lemma_operand(ts, depth, b, (j + 1) as usize, z, k);
    lemma_over(ts, depth, b, z, k);
    if binding(u) > binding(o) {
        lemma_infix(ts, depth, a, y, j, u, z, k);
        lemma_over(ts, depth, a, combined(u, y, z), k);
        lemma_infix(ts, depth, 1, x, i, o, combined(u, y, z), k);
        lemma_over(ts, depth, 1, combined(o, x, combined(u, y, z)), k);
    } else {
        lemma_loose(ts, depth, a, y, j, u);
        lemma_infix(ts, depth, 1, x, i, o, y, j);
        lemma_infix(ts, depth, 1, combined(o, x, y), j, u, z, k);
        lemma_over(ts, depth, 1, combined(u, combined(o, x, y), z), k);
    }
}

/// An expression in parentheses is an operand.
pub proof fn law_parentheses(ts: Seq<Tok>, depth: u32, p: usize, e: Expr, q: usize)
    requires
        ts.len() < usize::MAX,
        depth > 0,
        p < ts.len(),
        parser::tok_at(ts, p) == Tok::Mark(Punct::LParen),
        !parser::is_word(parser::tok_at(ts, (p + 1) as usize), Kw::Select),
        !parser::is_word(parser::tok_at(ts, (p + 1) as usize), Kw::Values),
        parser::prec_at(ts, (depth - 1) as u32, 1, (p + 1) as usize) == Ok::<(Expr, usize), Fault>(
            (e, q),
        ),
        p < q < ts.len(),
        parser::tok_at(ts, q) == Tok::Mark(Punct::RParen),
        parser::tok_at(ts, (q + 1) as usize) != Tok::Mark(Punct::DoubleColon),
    ensures
        is_operand(ts, depth, p, e, (q + 1) as usize),
{
    assert(parser::primary_at(ts, depth, p) == Ok::<(Expr, usize), Fault>(
        (e, (q + 1) as usize),
    ));
    assert(parser::casts_at(ts, e, (q + 1) as usize) == Ok::<(Expr, usize), Fault>(
        (e, (q + 1) as usize),
    ));
}

/// A sign belongs to the operand behind it, before all operators.
pub proof fn law_sign(ts: Seq<Tok>, depth: u32, p: usize, e: Expr, q: usize)
    requires
        ts.len() < usize::MAX,
        depth > 0,
        p < ts.len(),
        is_operand(ts, (depth - 1) as u32, (p + 1) as usize, e, q),
    ensures
        parser::tok_at(ts, p) == Tok::Mark(Punct::Minus) ==> is_operand(
            ts,
            depth,
            p,
            Expr::Negate(Box::new(e)),
            q,
        ),
        parser::tok_at(ts, p) == Tok::Mark(Punct::Plus) ==> is_operand(ts, depth, p, e, q),
{
}

/// NOT is about the comparison behind it, and not about what AND and OR join to it.
pub proof fn law_not(
    ts: Seq<Tok>,
    depth: u32,
    p: usize,
    x: Expr,
    i: usize,
    c: Compare,
    y: Expr,
    j: usize,
)
    requires
        ts.len() < usize::MAX,
        depth > 0,
        p < ts.len(),
        parser::is_word(parser::tok_at(ts, p), Kw::Not),
        is_operand(ts, (depth - 1) as u32, (p + 1) as usize, x, i),
        spells(parser::tok_at(ts, i), Infix::Compare(c)),
        i < ts.len(),
        is_operand(ts, (depth - 1) as u32, (i + 1) as usize, y, j),
    ensures
        is_over(ts, j) ==> parser::prec_at(ts, depth, 1, p) == Ok::<(Expr, usize), Fault>(
            (Expr::Not(Box::new(combined(Infix::Compare(c), x, y))), j),
        ),
        spells(parser::tok_at(ts, j), Infix::And) && j < ts.len() ==> parser::prec_at(
            ts,
            depth,
            1,
            p,
        ) == parser::prec_rest_at(
            ts,
            depth,
            1,
            Expr::Not(Box::new(combined(Infix::Compare(c), x, y))),
            j,
        ),
{
    let less = (depth - 1) as u32;
    let o = Infix::Compare(c);
    let e = combined(o, x, y);
    lemma_operand(ts, less, 3, (p + 1) as usize, x, i);
    lemma_operand(ts, less, 5, (i + 1) as usize, y, j);
    if is_over(ts, j) {
        lemma_over(ts, less, 5, y, j);
        lemma_infix(ts, less, 3, x, i, o, y, j);
        lemma_over(ts, less, 3, e, j);
        lemma_over(ts, depth, 1, Expr::Not(Box::new(e)), j);
    }
    if spells(parser::tok_at(ts, j), Infix::And) && j < ts.len() {
        lemma_loose(ts, less, 5, y, j, Infix::And);
        lemma_infix(ts, less, 3, x, i, o, y, j);
        lemma_loose(ts, less, 3, e, j, Infix::And);
    }
}

/// The AND of BETWEEN stands between its bounds, and another one behind them joins conditions.
pub proof fn law_between_and(
    ts: Seq<Tok>,
    depth: u32,
    p: usize,
    x: Expr,
    i: usize,
    negated: bool,
    low: Expr,
    j: usize,
    high: Expr,
    k: usize,
)
    requires
        ts.len() < usize::MAX - 2,
        is_operand(ts, depth, p, x, i),
        negated ==> parser::is_word(parser::tok_at(ts, i), Kw::Not) && parser::is_word(
            parser::tok_at(ts, (i + 1) as usize),
            Kw::Between,
        ),
        !negated ==> parser::is_word(parser::tok_at(ts, i), Kw::Between),
        i < ts.len(),
        is_operand(
            ts,
            depth,
            if negated {
                (i + 2) as usize
            } else {
                (i + 1) as usize
            },
            low,
            j,
        ),
        spells(parser::tok_at(ts, j), Infix::And),
        j < ts.len(),
        is_operand(ts, depth, (j + 1) as usize, high, k),
        is_over(ts, k) || spells(parser::tok_at(ts, k), Infix::And) && k < ts.len(),
    ensures
        parser::prec_at(ts, depth, 1, p) == parser::prec_rest_at(
            ts,
            depth,
            1,
            Expr::Between(Box::new(x), Box::new(low), Box::new(high), negated),
            k,
        ),
{
    let q = if negated {
        (i + 2) as usize
    } else {
        (i + 1) as usize
    };
    let e = Expr::Between(Box::new(x), Box::new(low), Box::new(high), negated);
    lemma_operand(ts, depth, 1, p, x, i);
    assert(parser::operator_at(ts, 1, i) == Ok::<(Operator, usize), Fault>(
        (Operator::Between(negated), q),
    ));
    lemma_operand(ts, depth, 5, q, low, j);
    lemma_loose(ts, depth, 5, low, j, Infix::And);
    assert(parser::word_at(ts, j, Kw::And) == Ok::<((), usize), Fault>(((), (j + 1) as usize)));
    lemma_operand(ts, depth, 5, (j + 1) as usize, high, k);
    if is_over(ts, k) {
        lemma_over(ts, depth, 5, high, k);
    } else {
        lemma_loose(ts, depth, 5, high, k, Infix::And);
    }
    assert(parser::beyond(ts, i, k));
    assert(parser::step_at(ts, depth, 1, i, e, k) == parser::prec_rest_at(ts, depth, 1, e, k));
}

/// A word that is no keyword names a column, if nothing behind it makes more of it.
pub proof fn law_column_name(ts: Seq<Tok>, depth: u32, p: usize, n: usize)
    requires
        ts.len() < usize::MAX,
        p < ts.len(),
        parser::tok_at(ts, p) == Tok::Word(Kw::Plain, n),
        parser::tok_at(ts, (p + 1) as usize) != Tok::Mark(Punct::LParen),
        parser::tok_at(ts, (p + 1) as usize) != Tok::Mark(Punct::Dot),
        parser::tok_at(ts, (p + 1) as usize) != Tok::Mark(Punct::DoubleColon),
    ensures
        is_operand(ts, depth, p, Expr::Col(None, n), (p + 1) as usize),
{
    let e = Expr::Col(None, n);
    let q = (p + 1) as usize;
    assert(!keyword::reserved(Kw::Plain));
    assert(parser::primary_at(ts, depth, p) == Ok::<(Expr, usize), Fault>((e, q)));
    assert(parser::casts_at(ts, e, q) == Ok::<(Expr, usize), Fault>((e, q)));
}

/// Two words with a point between them name a column of a table.
pub proof fn law_qualified_column(ts: Seq<Tok>, depth: u32, p: usize, n: usize, m: usize)
    requires
        p + 3 <= ts.len() < usize::MAX,
        parser::tok_at(ts, p) == Tok::Word(Kw::Plain, n),
        parser::tok_at(ts, (p + 1) as usize) == Tok::Mark(Punct::Dot),
        parser::tok_at(ts, (p + 2) as usize) == Tok::Word(Kw::Plain, m),
        parser::tok_at(ts, (p + 3) as usize) != Tok::Mark(Punct::DoubleColon),
    ensures
        is_operand(ts, depth, p, Expr::Col(Some(n), m), (p + 3) as usize),
{
    let e = Expr::Col(Some(n), m);
    let q = (p + 3) as usize;
    assert(!keyword::reserved(Kw::Plain));
    assert(parser::ident_at(ts, (p + 2) as usize) == Ok::<(usize, usize), Fault>((m, q)));
    assert(parser::primary_at(ts, depth, p) == Ok::<(Expr, usize), Fault>((e, q)));
    assert(parser::casts_at(ts, e, q) == Ok::<(Expr, usize), Fault>((e, q)));
}

proof fn lemma_constant(ts: Seq<Tok>, depth: u32, p: usize, e: Expr)
    requires
        p < ts.len() < usize::MAX,
        parser::tok_at(ts, (p + 1) as usize) != Tok::Mark(Punct::DoubleColon),
        parser::primary_at(ts, depth, p) == Ok::<(Expr, usize), Fault>((e, (p + 1) as usize)),
        !(parser::tok_at(ts, p) is Word),
        !(parser::tok_at(ts, p) is Mark),
    ensures
        is_operand(ts, depth, p, e, (p + 1) as usize),
{
    let q = (p + 1) as usize;
    assert(parser::casts_at(ts, e, q) == Ok::<(Expr, usize), Fault>((e, q)));
}

/// A number is a constant: one of 32 bits if it fits there, and otherwise one of 64.
pub proof fn law_number_constant(ts: Seq<Tok>, depth: u32, p: usize, k: u64)
    requires
        p < ts.len() < usize::MAX,
        parser::tok_at(ts, (p + 1) as usize) != Tok::Mark(Punct::DoubleColon),
        parser::tok_at(ts, p) == Tok::Num(k),
        k <= i64::MAX,
    ensures
        is_operand(
            ts,
            depth,
            p,
            Expr::Lit(
                if k <= i32::MAX {
                    Datum::Int(k as i32)
                } else {
                    Datum::Big(k as i64)
                },
            ),
            (p + 1) as usize,
        ),
{
    let d = if k <= i32::MAX {
        Datum::Int(k as i32)
    } else {
        Datum::Big(k as i64)
    };
    let q = (p + 1) as usize;
    assert(parser::literal_at(ts, p) == Ok::<(Datum, usize), Fault>((d, q)));
    assert(parser::primary_at(ts, depth, p) == Ok::<(Expr, usize), Fault>((Expr::Lit(d), q)));
    lemma_constant(ts, depth, p, Expr::Lit(d));
}

/// A text between quotes is a constant, and a number behind a dollar sign a parameter.
pub proof fn law_text_constant(ts: Seq<Tok>, depth: u32, p: usize, s: usize, k: u64)
    requires
        p < ts.len() < usize::MAX,
        parser::tok_at(ts, (p + 1) as usize) != Tok::Mark(Punct::DoubleColon),
    ensures
        parser::tok_at(ts, p) == Tok::Text(s) ==> is_operand(
            ts,
            depth,
            p,
            Expr::Lit(Datum::Text(s)),
            (p + 1) as usize,
        ),
        parser::tok_at(ts, p) == Tok::Param(k) ==> is_operand(
            ts,
            depth,
            p,
            Expr::Param(k),
            (p + 1) as usize,
        ),
{
    let q = (p + 1) as usize;
    if parser::tok_at(ts, p) == Tok::Text(s) {
        let d = Datum::Text(s);
        assert(parser::literal_at(ts, p) == Ok::<(Datum, usize), Fault>((d, q)));
        assert(parser::primary_at(ts, depth, p) == Ok::<(Expr, usize), Fault>((Expr::Lit(d), q)));
        lemma_constant(ts, depth, p, Expr::Lit(d));
    }
    if parser::tok_at(ts, p) == Tok::Param(k) {
        assert(parser::primary_at(ts, depth, p) == Ok::<(Expr, usize), Fault>((Expr::Param(k), q)));
        lemma_constant(ts, depth, p, Expr::Param(k));
    }
}

/// Whether a token joins two queries in a way.
pub open spec fn joins(t: Tok, op: Combine) -> bool {
    match op {
        Combine::Union => parser::is_word(t, Kw::Union),
        Combine::Intersect => parser::is_word(t, Kw::Intersect),
        Combine::Except => parser::is_word(t, Kw::Except),
    }
}

/// Whether a token and what may stand behind it join two queries; `all` says whether
/// duplicates stay, and `q` is the place behind.
pub open spec fn joins_at(ts: Seq<Tok>, p: usize, op: Combine, all: bool, q: usize) -> bool {
    &&& p < ts.len() < usize::MAX
    &&& joins(parser::tok_at(ts, p), op)
    &&& parser::all_flag_at(ts, (p + 1) as usize) == Ok::<(bool, usize), Fault>((all, q))
}

/// Whether the tokens from `p` up to `q` are a query block.
pub open spec fn is_block(ts: Seq<Tok>, depth: u32, p: usize, a: Query, q: usize) -> bool {
    &&& parser::block_at(ts, depth, p) == Ok::<(Query, usize), Fault>((a, q))
    &&& q <= ts.len()
}

/// Whether no token at a place joins a query to what is before it.
pub open spec fn is_joined_no_more(ts: Seq<Tok>, p: usize) -> bool {
    &&& !joins(parser::tok_at(ts, p), Combine::Union)
    &&& !joins(parser::tok_at(ts, p), Combine::Intersect)
    &&& !joins(parser::tok_at(ts, p), Combine::Except)
}

/// Two queries that are joined.
pub open spec fn joined(op: Combine, all: bool, a: Query, b: Query) -> Query {
    Query::Combined(op, all, Box::new(a), Box::new(b))
}

/// A query from `p` on, up to its order and its page.
pub open spec fn queries_at(ts: Seq<Tok>, depth: u32, p: usize) -> Result<(Query, usize), Fault> {
    match parser::intersections_at(ts, depth, p) {
        Err(f) => Err(f),
        Ok((first, q)) => parser::unions_at(ts, depth, first, q),
    }
}

proof fn lemma_intersect(
    ts: Seq<Tok>,
    depth: u32,
    a: Query,
    p: usize,
    all: bool,
    q: usize,
    b: Query,
    r: usize,
)
    requires
        joins_at(ts, p, Combine::Intersect, all, q),
        is_block(ts, depth, q, b, r),
        p < r,
    ensures
        parser::more_intersections_at(ts, depth, a, p) == parser::more_intersections_at(
            ts,
            depth,
            joined(Combine::Intersect, all, a, b),
            r,
        ),
{
    assert(parser::beyond(ts, p, r));
}

proof fn lemma_unite(
    ts: Seq<Tok>,
    depth: u32,
    a: Query,
    p: usize,
    op: Combine,
    all: bool,
    q: usize,
    b: Query,
    r: usize,
)
    requires
        joins_at(ts, p, op, all, q),
        op != Combine::Intersect,
        parser::intersections_at(ts, depth, q) == Ok::<(Query, usize), Fault>((b, r)),
        p < r <= ts.len(),
    ensures
        parser::unions_at(ts, depth, a, p) == parser::unions_at(
            ts,
            depth,
            joined(op, all, a, b),
            r,
        ),
{
    assert(parser::beyond(ts, p, r));
}

/// Of two words that join three queries, INTERSECT takes its queries before UNION and EXCEPT
/// do, and otherwise the left one comes first.
pub proof fn law_set_precedence(
    ts: Seq<Tok>,
    depth: u32,
    p: usize,
    a: Query,
    i: usize,
    op: Combine,
    x: bool,
    m: usize,
    b: Query,
    j: usize,
    up: Combine,
    y: bool,
    n: usize,
    c: Query,
    k: usize,
)
    requires
        is_block(ts, depth, p, a, i),
        joins_at(ts, i, op, x, m),
        is_block(ts, depth, m, b, j),
        i < j,
        joins_at(ts, j, up, y, n),
        is_block(ts, depth, n, c, k),
        j < k,
        is_joined_no_more(ts, k),
    ensures
        queries_at(ts, depth, p) == Ok::<(Query, usize), Fault>(
            (
                if up == Combine::Intersect && op != Combine::Intersect {
                    joined(op, x, a, joined(up, y, b, c))
                } else {
                    joined(up, y, joined(op, x, a, b), c)
                },
                k,
            ),
        ),
{
    let bc = joined(up, y, b, c);
    let ab = joined(op, x, a, b);
    if op == Combine::Intersect {
        lemma_intersect(ts, depth, a, i, x, m, b, j);
        if up == Combine::Intersect {
            lemma_intersect(ts, depth, ab, j, y, n, c, k);
            let all = joined(up, y, ab, c);
            assert(parser::more_intersections_at(ts, depth, all, k) == Ok::<(Query, usize), Fault>(
                (all, k),
            ));
            assert(parser::unions_at(ts, depth, all, k) == Ok::<(Query, usize), Fault>((all, k)));
        } else {
            assert(parser::more_intersections_at(ts, depth, ab, j) == Ok::<(Query, usize), Fault>(
                (ab, j),
            ));
            lemma_single(ts, depth, n, c, k);
            lemma_unite(ts, depth, ab, j, up, y, n, c, k);
            let all = joined(up, y, ab, c);
            assert(parser::unions_at(ts, depth, all, k) == Ok::<(Query, usize), Fault>((all, k)));
        }
    } else {
        assert(parser::more_intersections_at(ts, depth, a, i) == Ok::<(Query, usize), Fault>(
            (a, i),
        ));
        if up == Combine::Intersect {
            lemma_intersect(ts, depth, b, j, y, n, c, k);
            assert(parser::more_intersections_at(ts, depth, bc, k) == Ok::<(Query, usize), Fault>(
                (bc, k),
            ));
            assert(parser::intersections_at(ts, depth, m) == Ok::<(Query, usize), Fault>((bc, k)));
            lemma_unite(ts, depth, a, i, op, x, m, bc, k);
            let all = joined(op, x, a, bc);
            assert(parser::unions_at(ts, depth, all, k) == Ok::<(Query, usize), Fault>((all, k)));
        } else {
            assert(parser::more_intersections_at(ts, depth, b, j) == Ok::<(Query, usize), Fault>(
                (b, j),
            ));
            assert(parser::intersections_at(ts, depth, m) == Ok::<(Query, usize), Fault>((b, j)));
            lemma_unite(ts, depth, a, i, op, x, m, b, j);
            lemma_single(ts, depth, n, c, k);
            lemma_unite(ts, depth, ab, j, up, y, n, c, k);
            let all = joined(up, y, ab, c);
            assert(parser::unions_at(ts, depth, all, k) == Ok::<(Query, usize), Fault>((all, k)));
        }
    }
}

proof fn lemma_single(ts: Seq<Tok>, depth: u32, p: usize, a: Query, q: usize)
    requires
        is_block(ts, depth, p, a, q),
        !joins(parser::tok_at(ts, q), Combine::Intersect),
    ensures
        parser::intersections_at(ts, depth, p) == Ok::<(Query, usize), Fault>((a, q)),
{
    assert(parser::more_intersections_at(ts, depth, a, q) == Ok::<(Query, usize), Fault>((a, q)));
}

/// Without a word on nulls they come last in ascending order and first in descending order,
/// and without a word on the direction the order is ascending.
pub proof fn law_order_words(ts: Seq<Tok>, p: usize, desc: bool)
    ensures
        !parser::is_word(parser::tok_at(ts, p), Kw::Nulls) ==> parser::nulls_at(ts, desc, p) == Ok::<
            (bool, usize),
            Fault,
        >((desc, p)),
        !parser::is_word(parser::tok_at(ts, p), Kw::Desc) ==> (parser::direction_at(ts, p)
            matches Ok((d, _)) && !d),
        parser::is_word(parser::tok_at(ts, p), Kw::Desc) ==> (parser::direction_at(ts, p)
            matches Ok((d, _)) && d),
{
}

} // verus!
