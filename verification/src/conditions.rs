//! Laws of the values of expressions: comparisons, three-valued logic, ranges, lists,
//! patterns, branches and calculations.

use vstd::prelude::*;
use crate::analyze::CxModel;
use crate::ast::Expr;
use crate::ast::Exprs;
use crate::ast::Query;
use crate::ast::Whens;
use crate::datum;
use crate::datum::Arith;
use crate::datum::Compare;
use crate::datum::Datum;
use crate::datum::Tuple;
use crate::eval;
use crate::fault::Fault;
use crate::fields;
use crate::fields::Env;
use crate::fields::Field;
use crate::fields::Fields;
use crate::meaning;
use crate::symbols;

verus! {

/// Whether an expression has the value `d`.
pub open spec fn is_worth(
    cx: CxModel,
    env: Env,
    group: Option<Seq<Tuple>>,
    e: Expr,
    d: Datum,
) -> bool {
    eval::expr_value(cx, env, group, e) == Ok::<Datum, Fault>(d)
}

/// Whether a comparison holds between two integers.
pub open spec fn relates(op: Compare, p: int, q: int) -> bool {
    match op {
        Compare::Eq => p == q,
        Compare::Ne => p != q,
        Compare::Lt => p < q,
        Compare::Le => p <= q,
        Compare::Gt => p > q,
        Compare::Ge => p >= q,
    }
}

/// Whether two texts are the same up to place `k`, and the first one ends there or has
/// the smaller character there.
pub open spec fn parts_at(a: Seq<char>, b: Seq<char>, k: int) -> bool {
    &&& 0 <= k <= a.len()
    &&& k < b.len()
    &&& a.take(k) == b.take(k)
    &&& k == a.len() || a[k] < b[k]
}

/// Whether a text stands before another in the order of texts.
pub open spec fn comes_before(a: Seq<char>, b: Seq<char>) -> bool {
    exists|k: int| #[trigger] parts_at(a, b, k)
}

/// Whether a comparison holds between two texts.
pub open spec fn relates_texts(op: Compare, a: Seq<char>, b: Seq<char>) -> bool {
    match op {
        Compare::Eq => a == b,
        Compare::Ne => a != b,
        Compare::Lt => comes_before(a, b),
        Compare::Le => a == b || comes_before(a, b),
        Compare::Gt => comes_before(b, a),
        Compare::Ge => a == b || comes_before(b, a),
    }
}

/// Whether two values that are not null are the same.
pub open spec fn same_value(t: Seq<Seq<char>>, a: Datum, b: Datum) -> bool {
    match (a, b) {
        (Datum::Bool(x), Datum::Bool(y)) => x == y,
        (Datum::Text(x), Datum::Text(y)) => symbols::text_at(t, x) == symbols::text_at(t, y),
        _ => datum::is_number(a) && datum::is_number(b) && datum::as_number(a)
            == datum::as_number(b),
    }
}

/// The rank of two texts is that of their order.
pub proof fn lemma_rank_texts(a: Seq<char>, b: Seq<char>)
    ensures
        datum::rank_texts(a, b) is Less <==> comes_before(a, b),
        datum::rank_texts(a, b) is Same <==> a == b,
    decreases a.len(),
{
    if a.len() == 0 {
        if b.len() > 0 {
            assert(a.take(0) =~= b.take(0));
            assert(parts_at(a, b, 0));
        } else {
            assert(a =~= b);
        }
    } else if b.len() == 0 {
    } else if a[0] == b[0] {
        let x = a.drop_first();
        let y = b.drop_first();
        lemma_rank_texts(x, y);
        assert(a =~= seq![a[0]] + x);
        assert(b =~= seq![b[0]] + y);
        if comes_before(x, y) {
            let k = choose|k: int| #[trigger] parts_at(x, y, k);
            assert(a.take(k + 1) =~= seq![a[0]] + x.take(k));
            assert(b.take(k + 1) =~= seq![b[0]] + y.take(k));
            assert(parts_at(a, b, k + 1));
        }
        if comes_before(a, b) {
            let k = choose|k: int| #[trigger] parts_at(a, b, k);
            assert(k > 0);
            assert(x.take(k - 1) =~= a.take(k).drop_first());
            assert(y.take(k - 1) =~= b.take(k).drop_first());
            assert(parts_at(x, y, k - 1));
        }
    } else {
        if a[0] < b[0] {
            assert(a.take(0) =~= b.take(0));
            assert(parts_at(a, b, 0));
        }
        if comes_before(a, b) {
            let k = choose|k: int| #[trigger] parts_at(a, b, k);
            if k > 0 {
                assert(a.take(k)[0] == b.take(k)[0]);
            }
        }
    }
}

proof fn lemma_compared_texts(t: Seq<Seq<char>>, op: Compare, x: usize, y: usize)
    ensures
        datum::compared(t, op, Datum::Text(x), Datum::Text(y)) == Datum::Bool(
            relates_texts(op, symbols::text_at(t, x), symbols::text_at(t, y)),
        ),
{
    lemma_rank_texts(symbols::text_at(t, x), symbols::text_at(t, y));
    lemma_rank_texts(symbols::text_at(t, y), symbols::text_at(t, x));
    datum::law_rank_total(t, Datum::Text(x), Datum::Text(y));
}

/// Two values compare as equal if they are the same.
pub proof fn lemma_same_value(t: Seq<Seq<char>>, a: Datum, b: Datum)
    ensures
        datum::compared(t, Compare::Eq, a, b) == if a == Datum::Null || b == Datum::Null {
            Datum::Null
        } else {
            Datum::Bool(same_value(t, a, b))
        },
{
    if let (Datum::Text(x), Datum::Text(y)) = (a, b) {
        lemma_compared_texts(t, Compare::Eq, x, y);
    }
}

/// A comparison has the truth value of the relation between two numbers, two texts or two
/// truth values, false being less than true. It is unknown if one of the values is null.
pub proof fn law_comparison(
    cx: CxModel,
    env: Env,
    group: Option<Seq<Tuple>>,
    op: Compare,
    x: Box<Expr>,
    y: Box<Expr>,
    a: Datum,
    b: Datum,
)
    requires
        is_worth(cx, env, group, *x, a),
        is_worth(cx, env, group, *y, b),
    ensures
        a == Datum::Null || b == Datum::Null ==> is_worth(
            cx,
            env,
            group,
            Expr::Compare(op, x, y),
            Datum::Null,
        ),
        datum::is_number(a) && datum::is_number(b) ==> is_worth(
            cx,
            env,
            group,
            Expr::Compare(op, x, y),
            Datum::Bool(relates(op, datum::as_number(a), datum::as_number(b))),
        ),
        a matches Datum::Text(i) ==> b matches Datum::Text(j) ==> is_worth(
            cx,
            env,
            group,
            Expr::Compare(op, x, y),
            Datum::Bool(
                relates_texts(op, symbols::text_at(cx.symbols, i), symbols::text_at(cx.symbols, j)),
            ),
        ),
        a matches Datum::Bool(p) ==> b matches Datum::Bool(q) ==> is_worth(
            cx,
            env,
            group,
            Expr::Compare(op, x, y),
            Datum::Bool(
                match op {
                    Compare::Eq => p == q,
                    Compare::Ne => p != q,
                    Compare::Lt => !p && q,
                    Compare::Le => !p || q,
                    Compare::Gt => p && !q,
                    Compare::Ge => p || !q,
                },
            ),
        ),
{
    assert(is_worth(
        cx,
        env,
        group,
        Expr::Compare(op, x, y),
        datum::compared(cx.symbols, op, a, b),
    ));
    if let (Datum::Text(i), Datum::Text(j)) = (a, b) {
        lemma_compared_texts(cx.symbols, op, i, j);
    }
}

/// Whether a value is one of the three of the logic.
pub open spec fn is_truth(d: Datum) -> bool {
    d == Datum::Bool(true) || d == Datum::Bool(false) || d == Datum::Null
}

/// NOT turns true and false into each other and leaves the unknown. AND is false if one
/// side is, true if both are; OR is true if one side is, false if both are; both are
/// unknown otherwise. Where the first side decides, the second one is not looked at.
pub proof fn law_logic(
    cx: CxModel,
    env: Env,
    group: Option<Seq<Tuple>>,
    x: Box<Expr>,
    y: Box<Expr>,
    a: Datum,
)
    requires
        is_worth(cx, env, group, *x, a),
        is_truth(a),
    ensures
        a == Datum::Bool(true) ==> is_worth(cx, env, group, Expr::Not(x), Datum::Bool(false)),
        a == Datum::Bool(false) ==> is_worth(cx, env, group, Expr::Not(x), Datum::Bool(true)),
        a == Datum::Null ==> is_worth(cx, env, group, Expr::Not(x), Datum::Null),
        a == Datum::Bool(false) ==> is_worth(cx, env, group, Expr::And(x, y), Datum::Bool(false)),
        a == Datum::Bool(true) ==> is_worth(cx, env, group, Expr::Or(x, y), Datum::Bool(true)),
        eval::expr_value(cx, env, group, *y) matches Ok(b) ==> is_truth(b) ==> {
            &&& is_worth(
                cx,
                env,
                group,
                Expr::And(x, y),
                if a == Datum::Bool(false) || b == Datum::Bool(false) {
                    Datum::Bool(false)
                } else if a == Datum::Null || b == Datum::Null {
                    Datum::Null
                } else {
                    Datum::Bool(true)
                },
            )
            &&& is_worth(
                cx,
                env,
                group,
                Expr::Or(x, y),
                if a == Datum::Bool(true) || b == Datum::Bool(true) {
                    Datum::Bool(true)
                } else if a == Datum::Null || b == Datum::Null {
                    Datum::Null
                } else {
                    Datum::Bool(false)
                },
            )
        },
{
}

/// A logical expression has no value if its first side has none, and none if its second
/// side has none and is looked at.
pub proof fn law_logic_fails(
    cx: CxModel,
    env: Env,
    group: Option<Seq<Tuple>>,
    x: Box<Expr>,
    y: Box<Expr>,
    f: Fault,
)
    ensures
        eval::expr_value(cx, env, group, *x) == Err::<Datum, Fault>(f) ==> {
            &&& eval::expr_value(cx, env, group, Expr::Not(x)) == Err::<Datum, Fault>(f)
            &&& eval::expr_value(cx, env, group, Expr::And(x, y)) == Err::<Datum, Fault>(f)
            &&& eval::expr_value(cx, env, group, Expr::Or(x, y)) == Err::<Datum, Fault>(f)
        },
        eval::expr_value(cx, env, group, *y) == Err::<Datum, Fault>(f) ==> {
            &&& is_worth(cx, env, group, *x, Datum::Bool(true)) ==> eval::expr_value(
                cx,
                env,
                group,
                Expr::And(x, y),
            ) == Err::<Datum, Fault>(f)
            &&& is_worth(cx, env, group, *x, Datum::Bool(false)) ==> eval::expr_value(
                cx,
                env,
                group,
                Expr::Or(x, y),
            ) == Err::<Datum, Fault>(f)
        },
{
}

/// `x BETWEEN y AND z` is true of numbers from `y` to `z`, both included, and false of
/// others. With a null bound it is false where the other bound decides, and unknown
/// otherwise. `NOT BETWEEN` is true where it is false, false where it is true, and unknown
/// where it is unknown.
pub proof fn law_between(
    cx: CxModel,
    env: Env,
    group: Option<Seq<Tuple>>,
    x: Box<Expr>,
    y: Box<Expr>,
    z: Box<Expr>,
    d: Datum,
    low: Datum,
    high: Datum,
)
    requires
        is_worth(cx, env, group, *x, d),
        is_worth(cx, env, group, *y, low),
        is_worth(cx, env, group, *z, high),
    ensures
        datum::is_number(d) && datum::is_number(low) && datum::is_number(high) ==> {
            let inside = datum::as_number(low) <= datum::as_number(d) <= datum::as_number(high);
            &&& is_worth(cx, env, group, Expr::Between(x, y, z, false), Datum::Bool(inside))
            &&& is_worth(cx, env, group, Expr::Between(x, y, z, true), Datum::Bool(!inside))
        },
        d == Datum::Null || (low == Datum::Null && high == Datum::Null) ==> {
            &&& is_worth(cx, env, group, Expr::Between(x, y, z, false), Datum::Null)
            &&& is_worth(cx, env, group, Expr::Between(x, y, z, true), Datum::Null)
        },
        datum::is_number(d) && low == Datum::Null && datum::is_number(high) ==> {
            let above = datum::as_number(d) > datum::as_number(high);
            &&& is_worth(
                cx,
                env,
                group,
                Expr::Between(x, y, z, false),
                if above {
                    Datum::Bool(false)
                } else {
                    Datum::Null
                },
            )
            &&& is_worth(
                cx,
                env,
                group,
                Expr::Between(x, y, z, true),
                if above {
                    Datum::Bool(true)
                } else {
                    Datum::Null
                },
            )
        },
        datum::is_number(d) && datum::is_number(low) && high == Datum::Null ==> {
            let below = datum::as_number(d) < datum::as_number(low);
            &&& is_worth(
                cx,
                env,
                group,
                Expr::Between(x, y, z, false),
                if below {
                    Datum::Bool(false)
                } else {
                    Datum::Null
                },
            )
            &&& is_worth(
                cx,
                env,
                group,
                Expr::Between(x, y, z, true),
                if below {
                    Datum::Bool(true)
                } else {
                    Datum::Null
                },
            )
        },
        d matches Datum::Text(i) ==> low matches Datum::Text(j) ==> high matches Datum::Text(k) ==> {
            let s = symbols::text_at(cx.symbols, i);
            let inside = !comes_before(s, symbols::text_at(cx.symbols, j)) && !comes_before(
                symbols::text_at(cx.symbols, k),
                s,
            );
            &&& is_worth(cx, env, group, Expr::Between(x, y, z, false), Datum::Bool(inside))
            &&& is_worth(cx, env, group, Expr::Between(x, y, z, true), Datum::Bool(!inside))
        },
{
    let inner = datum::and3(
        datum::compared(cx.symbols, Compare::Ge, d, low),
        datum::compared(cx.symbols, Compare::Le, d, high),
    );
    assert(is_worth(cx, env, group, Expr::Between(x, y, z, false), inner));
    assert(is_worth(cx, env, group, Expr::Between(x, y, z, true), datum::not3(inner)));
    if let (Datum::Text(i), Datum::Text(j), Datum::Text(k)) = (d, low, high) {
        lemma_rank_texts(symbols::text_at(cx.symbols, i), symbols::text_at(cx.symbols, j));
        lemma_rank_texts(symbols::text_at(cx.symbols, k), symbols::text_at(cx.symbols, i));
        datum::law_rank_total(cx.symbols, d, high);
    }
}

/// `x BETWEEN y AND z` has the value of `x >= y AND x <= z`, and the negated form the value
/// of its negation, whatever the values are.
pub proof fn law_between_is_a_conjunction(
    cx: CxModel,
    env: Env,
    group: Option<Seq<Tuple>>,
    x: Box<Expr>,
    y: Box<Expr>,
    z: Box<Expr>,
)
    requires
        eval::expr_value(cx, env, group, *x) is Ok,
        eval::expr_value(cx, env, group, *y) is Ok,
        eval::expr_value(cx, env, group, *z) is Ok,
    ensures
        eval::expr_value(cx, env, group, Expr::Between(x, y, z, false)) == eval::expr_value(
            cx,
            env,
            group,
            Expr::And(
                Box::new(Expr::Compare(Compare::Ge, x, y)),
                Box::new(Expr::Compare(Compare::Le, x, z)),
            ),
        ),
        eval::expr_value(cx, env, group, Expr::Between(x, y, z, true)) == eval::expr_value(
            cx,
            env,
            group,
            Expr::Not(Box::new(Expr::Between(x, y, z, false))),
        ),
{
    let d = eval::expr_value(cx, env, group, *x)->Ok_0;
    let low = eval::expr_value(cx, env, group, *y)->Ok_0;
    let high = eval::expr_value(cx, env, group, *z)->Ok_0;
    assert(is_worth(
        cx,
        env,
        group,
        Expr::Compare(Compare::Ge, x, y),
        datum::compared(cx.symbols, Compare::Ge, d, low),
    ));
    assert(is_worth(
        cx,
        env,
        group,
        Expr::Compare(Compare::Le, x, z),
        datum::compared(cx.symbols, Compare::Le, d, high),
    ));
    let inner = datum::and3(
        datum::compared(cx.symbols, Compare::Ge, d, low),
        datum::compared(cx.symbols, Compare::Le, d, high),
    );
    assert(is_worth(cx, env, group, Expr::Between(x, y, z, false), inner));
    assert(is_worth(cx, env, group, Expr::Between(x, y, z, true), datum::not3(inner)));
}

/// How many expressions there are.
pub open spec fn exprs_len(es: Exprs) -> nat
    decreases es,
{
    match es {
        Exprs::Nil => 0,
        Exprs::Cons(_, rest) => 1 + exprs_len(*rest),
    }
}

/// The expression at place `k`.
pub open spec fn expr_at(es: Exprs, k: int) -> Expr
    decreases es,
{
    match es {
        Exprs::Nil => Expr::Default,
        Exprs::Cons(e, rest) => if k == 0 {
            *e
        } else {
            expr_at(*rest, k - 1)
        },
    }
}

/// Whether all expressions have values.
pub open spec fn all_have_values(
    cx: CxModel,
    env: Env,
    group: Option<Seq<Tuple>>,
    es: Exprs,
) -> bool {
    forall|k: int|
        0 <= k < exprs_len(es) ==> eval::expr_value(cx, env, group, #[trigger] expr_at(es, k)) is Ok
}

/// The value of the expression at place `k`.
pub open spec fn value_at(
    cx: CxModel,
    env: Env,
    group: Option<Seq<Tuple>>,
    es: Exprs,
    k: int,
) -> Datum {
    eval::expr_value(cx, env, group, expr_at(es, k))->Ok_0
}

/// The place in a longer list is one further.
proof fn lemma_expr_at(e: Box<Expr>, rest: Box<Exprs>, k: int)
    requires
        0 <= k,
    ensures
        expr_at(Exprs::Cons(e, rest), k + 1) == expr_at(*rest, k),
        expr_at(Exprs::Cons(e, rest), 0) == *e,
{
}

proof fn lemma_rest_has_values(
    cx: CxModel,
    env: Env,
    group: Option<Seq<Tuple>>,
    e: Box<Expr>,
    rest: Box<Exprs>,
)
    requires
        all_have_values(cx, env, group, Exprs::Cons(e, rest)),
    ensures
        all_have_values(cx, env, group, *rest),
        eval::expr_value(cx, env, group, *e) is Ok,
{
    let es = Exprs::Cons(e, rest);
    assert(expr_at(es, 0) == *e);
    assert forall|k: int| 0 <= k < exprs_len(*rest) implies eval::expr_value(
        cx,
        env,
        group,
        #[trigger] expr_at(*rest, k),
    ) is Ok by {
        assert(expr_at(es, k + 1) == expr_at(*rest, k));
    }
}

proof fn lemma_list_member(
    cx: CxModel,
    env: Env,
    group: Option<Seq<Tuple>>,
    x: Datum,
    es: Exprs,
    unknown: bool,
)
    requires
        all_have_values(cx, env, group, es),
    ensures
        eval::list_member(cx, env, group, x, es, unknown) matches Ok(m) && {
            let found = x != Datum::Null && exists|k: int|
                0 <= k < exprs_len(es) && same_value(
                    cx.symbols,
                    x,
                    #[trigger] value_at(cx, env, group, es, k),
                );
            let open = unknown || (exprs_len(es) > 0 && x == Datum::Null) || exists|k: int|
                0 <= k < exprs_len(es) && #[trigger] value_at(cx, env, group, es, k)
                    == Datum::Null;
            m == if found {
                Datum::Bool(true)
            } else if open {
                Datum::Null
            } else {
                Datum::Bool(false)
            }
        },
    decreases es,
{
    match es {
        Exprs::Nil => {},
        Exprs::Cons(e, rest) => {
            lemma_rest_has_values(cx, env, group, e, rest);
            let d = eval::expr_value(cx, env, group, *e)->Ok_0;
            let c = datum::compared(cx.symbols, Compare::Eq, x, d);
            lemma_same_value(cx.symbols, x, d);
            assert(value_at(cx, env, group, es, 0) == d);
            assert forall|k: int| 0 <= k < exprs_len(*rest) implies #[trigger] value_at(
                cx,
                env,
                group,
                *rest,
                k,
            ) == value_at(cx, env, group, es, k + 1) by {
                lemma_expr_at(e, rest, k);
            }
            assert forall|k: int| 1 <= k < exprs_len(es) implies #[trigger] value_at(
                cx,
                env,
                group,
                es,
                k,
            ) == value_at(cx, env, group, *rest, k - 1) by {
                lemma_expr_at(e, rest, k - 1);
            }
            if c != Datum::Bool(true) {
                lemma_list_member(cx, env, group, x, *rest, unknown || c == Datum::Null);
                if x != Datum::Null && exists|k: int|
                    0 <= k < exprs_len(es) && same_value(
                        cx.symbols,
                        x,
                        #[trigger] value_at(cx, env, group, es, k),
                    ) {
                    let k = choose|k: int|
                        0 <= k < exprs_len(es) && same_value(
                            cx.symbols,
                            x,
                            #[trigger] value_at(cx, env, group, es, k),
                        );
                    assert(k > 0);
                    assert(value_at(cx, env, group, *rest, k - 1) == value_at(
                        cx,
                        env,
                        group,
                        es,
                        k,
                    ));
                }
                if exists|k: int|
                    0 <= k < exprs_len(es) && #[trigger] value_at(cx, env, group, es, k)
                        == Datum::Null {
                    let k = choose|k: int|
                        0 <= k < exprs_len(es) && #[trigger] value_at(cx, env, group, es, k)
                            == Datum::Null;
                    if k > 0 {
                        assert(value_at(cx, env, group, *rest, k - 1) == Datum::Null);
                    }
                }
            }
        },
    }
}

/// `x IN (..)` is true if the value is the same as one of the list, unknown if it is not
/// and it or one of the list is null, and false otherwise. `NOT IN` is the negation.
pub proof fn law_in_list(
    cx: CxModel,
    env: Env,
    group: Option<Seq<Tuple>>,
    x: Box<Expr>,
    list: Box<Exprs>,
    d: Datum,
)
    requires
        is_worth(cx, env, group, *x, d),
        all_have_values(cx, env, group, *list),
    ensures
        ({
            let found = d != Datum::Null && exists|k: int|
                0 <= k < exprs_len(*list) && same_value(
                    cx.symbols,
                    d,
                    #[trigger] value_at(cx, env, group, *list, k),
                );
            let open = (exprs_len(*list) > 0 && d == Datum::Null) || exists|k: int|
                0 <= k < exprs_len(*list) && #[trigger] value_at(cx, env, group, *list, k)
                    == Datum::Null;
            &&& is_worth(
                cx,
                env,
                group,
                Expr::InList(x, list, false),
                if found {
                    Datum::Bool(true)
                } else if open {
                    Datum::Null
                } else {
                    Datum::Bool(false)
                },
            )
            &&& is_worth(
                cx,
                env,
                group,
                Expr::InList(x, list, true),
                if found {
                    Datum::Bool(false)
                } else if open {
                    Datum::Null
                } else {
                    Datum::Bool(true)
                },
            )
        }),
{
    lemma_list_member(cx, env, group, d, *list, false);
    let m = eval::list_member(cx, env, group, d, *list, false)->Ok_0;
    assert(is_worth(cx, env, group, Expr::InList(x, list, false), m));
    assert(is_worth(cx, env, group, Expr::InList(x, list, true), datum::not3(m)));
}

/// `x IN (query)` is true if the value is the same as the first cell of one of the rows,
/// unknown if it is not and it or one of those cells is null, and false otherwise. `NOT IN`
/// is the negation.
pub proof fn law_in_query(
    cx: CxModel,
    env: Env,
    group: Option<Seq<Tuple>>,
    x: Box<Expr>,
    q: Box<Query>,
    d: Datum,
    rows: Seq<Tuple>,
)
    requires
        is_worth(cx, env, group, *x, d),
        eval::query_rows(cx, env, *q) == Ok::<Seq<Tuple>, Fault>(rows),
    ensures
        ({
            let found = d != Datum::Null && exists|k: int|
                0 <= k < rows.len() && same_value(cx.symbols, d, datum::cell(#[trigger] rows[k], 0));
            let open = (rows.len() > 0 && d == Datum::Null) || exists|k: int|
                0 <= k < rows.len() && datum::cell(#[trigger] rows[k], 0) == Datum::Null;
            &&& is_worth(
                cx,
                env,
                group,
                Expr::InQuery(x, q, false),
                if found {
                    Datum::Bool(true)
                } else if open {
                    Datum::Null
                } else {
                    Datum::Bool(false)
                },
            )
            &&& is_worth(
                cx,
                env,
                group,
                Expr::InQuery(x, q, true),
                if found {
                    Datum::Bool(false)
                } else if open {
                    Datum::Null
                } else {
                    Datum::Bool(true)
                },
            )
        }),
{
    let m = eval::member_from(cx.symbols, d, rows, 0, false);
    meaning::law_in(cx.symbols, d, rows);
    assert forall|k: int| 0 <= k < rows.len() implies datum::compared(
        cx.symbols,
        Compare::Eq,
        d,
        datum::cell(#[trigger] rows[k], 0),
    ) == if d == Datum::Null || datum::cell(rows[k], 0) == Datum::Null {
        Datum::Null
    } else {
        Datum::Bool(same_value(cx.symbols, d, datum::cell(rows[k], 0)))
    } by {
        lemma_same_value(cx.symbols, d, datum::cell(rows[k], 0));
    }
    if rows.len() > 0 {
        assert(datum::compared(cx.symbols, Compare::Eq, d, datum::cell(rows[0], 0))
            == if d == Datum::Null || datum::cell(rows[0], 0) == Datum::Null {
            Datum::Null
        } else {
            Datum::Bool(same_value(cx.symbols, d, datum::cell(rows[0], 0)))
        });
    }
    assert(is_worth(cx, env, group, Expr::InQuery(x, q, false), m));
    assert(is_worth(cx, env, group, Expr::InQuery(x, q, true), datum::not3(m)));
}

/// EXISTS is true exactly if the query has a row. A query as a value has the first cell of
/// its only row, null if it has no row, and no value if it has more than one.
pub proof fn law_subqueries(
    cx: CxModel,
    env: Env,
    group: Option<Seq<Tuple>>,
    q: Box<Query>,
    rows: Seq<Tuple>,
)
    requires
        eval::query_rows(cx, env, *q) == Ok::<Seq<Tuple>, Fault>(rows),
    ensures
        is_worth(cx, env, group, Expr::Exists(q), Datum::Bool(exists|x: Tuple| rows.contains(x))),
        rows.len() == 0 ==> is_worth(cx, env, group, Expr::Scalar(q), Datum::Null),
        rows.len() == 1 ==> is_worth(cx, env, group, Expr::Scalar(q), datum::cell(rows[0], 0)),
        rows.len() > 1 ==> eval::expr_value(cx, env, group, Expr::Scalar(q)) == Err::<
            Datum,
            Fault,
        >(Fault::MoreThanOneRow),
{
    if rows.len() > 0 {
        assert(rows.contains(rows[0]));
    }
}

/// `IS NULL` and `IS NOT NULL` are true or false, and say whether the value is null.
/// `NULLIF` is null if its values are the same, and the first one otherwise.
pub proof fn law_null_tests(
    cx: CxModel,
    env: Env,
    group: Option<Seq<Tuple>>,
    x: Box<Expr>,
    y: Box<Expr>,
    a: Datum,
    b: Datum,
)
    requires
        is_worth(cx, env, group, *x, a),
        is_worth(cx, env, group, *y, b),
    ensures
        is_worth(cx, env, group, Expr::IsNull(x, false), Datum::Bool(a == Datum::Null)),
        is_worth(cx, env, group, Expr::IsNull(x, true), Datum::Bool(a != Datum::Null)),
        is_worth(
            cx,
            env,
            group,
            Expr::NullIf(x, y),
            if same_value(cx.symbols, a, b) {
                Datum::Null
            } else {
                a
            },
        ),
{
    lemma_same_value(cx.symbols, a, b);
}

/// COALESCE is the first value that is not null, and null if there is none.
pub proof fn law_coalesce(
    cx: CxModel,
    env: Env,
    group: Option<Seq<Tuple>>,
    list: Box<Exprs>,
    k: int,
)
    requires
        0 <= k <= exprs_len(*list),
        forall|j: int|
            0 <= j < k ==> is_worth(cx, env, group, #[trigger] expr_at(*list, j), Datum::Null),
    ensures
        k == exprs_len(*list) ==> is_worth(cx, env, group, Expr::Coalesce(list), Datum::Null),
        k < exprs_len(*list) && !is_worth(cx, env, group, expr_at(*list, k), Datum::Null)
            ==> eval::expr_value(cx, env, group, Expr::Coalesce(list)) == eval::expr_value(
            cx,
            env,
            group,
            expr_at(*list, k),
        ),
{
    lemma_first_value(cx, env, group, *list, k);
}

proof fn lemma_first_value(
    cx: CxModel,
    env: Env,
    group: Option<Seq<Tuple>>,
    es: Exprs,
    k: int,
)
    requires
        0 <= k <= exprs_len(es),
        forall|j: int|
            0 <= j < k ==> is_worth(cx, env, group, #[trigger] expr_at(es, j), Datum::Null),
    ensures
        k == exprs_len(es) ==> eval::first_value(cx, env, group, es) == Ok::<Datum, Fault>(
            Datum::Null,
        ),
        k < exprs_len(es) && !is_worth(cx, env, group, expr_at(es, k), Datum::Null)
            ==> eval::first_value(cx, env, group, es) == eval::expr_value(
            cx,
            env,
            group,
            expr_at(es, k),
        ),
    decreases es,
{
    if let Exprs::Cons(e, rest) = es {
        if k > 0 {
            assert(expr_at(es, 0) == *e);
            assert forall|j: int| 0 <= j < k - 1 implies is_worth(
                cx,
                env,
                group,
                #[trigger] expr_at(*rest, j),
                Datum::Null,
            ) by {
                assert(expr_at(es, j + 1) == expr_at(*rest, j));
            }
            lemma_first_value(cx, env, group, *rest, k - 1);
        }
    }
}

/// How many branches there are.
pub open spec fn whens_len(ws: Whens) -> nat
    decreases ws,
{
    match ws {
        Whens::Nil => 0,
        Whens::Cons(_, _, rest) => 1 + whens_len(*rest),
    }
}

/// The condition of the branch at place `k`.
pub open spec fn when_at(ws: Whens, k: int) -> Expr
    decreases ws,
{
    match ws {
        Whens::Nil => Expr::Default,
        Whens::Cons(c, _, rest) => if k == 0 {
            *c
        } else {
            when_at(*rest, k - 1)
        },
    }
}

/// The result of the branch at place `k`.
pub open spec fn result_at(ws: Whens, k: int) -> Expr
    decreases ws,
{
    match ws {
        Whens::Nil => Expr::Default,
        Whens::Cons(_, x, rest) => if k == 0 {
            *x
        } else {
            result_at(*rest, k - 1)
        },
    }
}

/// Whether a condition has a value other than true.
pub open spec fn is_not_true(cx: CxModel, env: Env, group: Option<Seq<Tuple>>, e: Expr) -> bool {
    eval::expr_value(cx, env, group, e) matches Ok(d) && d != Datum::Bool(true)
}

/// Whether an expression has a value other than `x`.
pub open spec fn is_other(
    cx: CxModel,
    env: Env,
    group: Option<Seq<Tuple>>,
    x: Datum,
    e: Expr,
) -> bool {
    eval::expr_value(cx, env, group, e) matches Ok(d) && !same_value(cx.symbols, x, d)
}

proof fn lemma_when_value(cx: CxModel, env: Env, group: Option<Seq<Tuple>>, ws: Whens, k: int)
    requires
        0 <= k <= whens_len(ws),
        forall|j: int| 0 <= j < k ==> is_not_true(cx, env, group, #[trigger] when_at(ws, j)),
    ensures
        k == whens_len(ws) ==> eval::when_value(cx, env, group, ws) == Ok::<Option<Datum>, Fault>(
            None,
        ),
        k < whens_len(ws) && is_worth(cx, env, group, when_at(ws, k), Datum::Bool(true))
            ==> eval::when_value(cx, env, group, ws) == match eval::expr_value(
            cx,
            env,
            group,
            result_at(ws, k),
        ) {
            Ok(d) => Ok::<Option<Datum>, Fault>(Some(d)),
            Err(f) => Err(f),
        },
    decreases ws,
{
    if let Whens::Cons(c, x, rest) = ws {
        if k > 0 {
            assert(when_at(ws, 0) == *c);
            assert forall|j: int| 0 <= j < k - 1 implies is_not_true(
                cx,
                env,
                group,
                #[trigger] when_at(*rest, j),
            ) by {
                assert(when_at(ws, j + 1) == when_at(*rest, j));
            }
            lemma_when_value(cx, env, group, *rest, k - 1);
        }
    }
}

/// CASE has the value of the first branch whose condition is true, and that of its last
/// part if no condition is; a condition that is unknown is not true.
pub proof fn law_case(
    cx: CxModel,
    env: Env,
    group: Option<Seq<Tuple>>,
    ws: Box<Whens>,
    otherwise: Box<Expr>,
    k: int,
)
    requires
        0 <= k <= whens_len(*ws),
        forall|j: int| 0 <= j < k ==> is_not_true(cx, env, group, #[trigger] when_at(*ws, j)),
    ensures
        k == whens_len(*ws) ==> eval::expr_value(cx, env, group, Expr::Case(ws, otherwise))
            == eval::expr_value(cx, env, group, *otherwise),
        k < whens_len(*ws) && is_worth(cx, env, group, when_at(*ws, k), Datum::Bool(true))
            ==> eval::expr_value(cx, env, group, Expr::Case(ws, otherwise)) == eval::expr_value(
            cx,
            env,
            group,
            result_at(*ws, k),
        ),
{
    lemma_when_value(cx, env, group, *ws, k);
}

proof fn lemma_switch_value(
    cx: CxModel,
    env: Env,
    group: Option<Seq<Tuple>>,
    x: Datum,
    ws: Whens,
    k: int,
)
    requires
        0 <= k <= whens_len(ws),
        forall|j: int| 0 <= j < k ==> is_other(cx, env, group, x, #[trigger] when_at(ws, j)),
    ensures
        k == whens_len(ws) ==> eval::switch_value(cx, env, group, x, ws) == Ok::<
            Option<Datum>,
            Fault,
        >(None),
        k < whens_len(ws) && (eval::expr_value(cx, env, group, when_at(ws, k)) matches Ok(d)
            && same_value(cx.symbols, x, d)) ==> eval::switch_value(cx, env, group, x, ws)
            == match eval::expr_value(cx, env, group, result_at(ws, k)) {
            Ok(d) => Ok::<Option<Datum>, Fault>(Some(d)),
            Err(f) => Err(f),
        },
    decreases ws,
{
    if let Whens::Cons(c, y, rest) = ws {
        assert(when_at(ws, 0) == *c);
        if let Ok(d) = eval::expr_value(cx, env, group, *c) {
            lemma_same_value(cx.symbols, x, d);
        }
        if k > 0 {
            assert(is_other(cx, env, group, x, when_at(ws, 0)));
            assert forall|j: int| 0 <= j < k - 1 implies is_other(
                cx,
                env,
                group,
                x,
                #[trigger] when_at(*rest, j),
            ) by {
                assert(when_at(ws, j + 1) == when_at(*rest, j));
            }
            lemma_switch_value(cx, env, group, x, *rest, k - 1);
        }
    }
}

/// CASE with a value has the value of the first branch whose value is the same, and that of
/// its last part if none is.
pub proof fn law_switch(
    cx: CxModel,
    env: Env,
    group: Option<Seq<Tuple>>,
    x: Box<Expr>,
    d: Datum,
    ws: Box<Whens>,
    otherwise: Box<Expr>,
    k: int,
)
    requires
        is_worth(cx, env, group, *x, d),
        0 <= k <= whens_len(*ws),
        forall|j: int| 0 <= j < k ==> is_other(cx, env, group, d, #[trigger] when_at(*ws, j)),
    ensures
        k == whens_len(*ws) ==> eval::expr_value(cx, env, group, Expr::Switch(x, ws, otherwise))
            == eval::expr_value(cx, env, group, *otherwise),
        k < whens_len(*ws) && (eval::expr_value(cx, env, group, when_at(*ws, k)) matches Ok(e)
            && same_value(cx.symbols, d, e)) ==> eval::expr_value(
            cx,
            env,
            group,
            Expr::Switch(x, ws, otherwise),
        ) == eval::expr_value(cx, env, group, result_at(*ws, k)),
{
    lemma_switch_value(cx, env, group, d, *ws, k);
}

/// Whether a text matches a pattern.
pub open spec fn is_like(s: Seq<char>, p: Seq<char>) -> bool {
    eval::like_from(s, 0, p, 0)
}

proof fn lemma_like_shift(s: Seq<char>, i: int, p: Seq<char>, j: int)
    requires
        0 <= i <= s.len(),
        0 <= j <= p.len(),
    ensures
        eval::like_from(s, i, p, j) == is_like(s.skip(i), p.skip(j)),
    decreases (s.len() - i) + (p.len() - j),
{
    let a = s.skip(i);
    let b = p.skip(j);
    if j < p.len() {
        assert(b[0] == p[j]);
        assert(b.skip(1) =~= p.skip(j + 1));
        lemma_like_shift(s, i, p, j + 1);
        if i < s.len() {
            assert(a[0] == s[i]);
            assert(a.skip(1) =~= s.skip(i + 1));
            lemma_like_shift(s, i + 1, p, j);
            lemma_like_shift(s, i + 1, p, j + 1);
            if i > 0 || j > 0 {
                lemma_like_shift(a, 0, b, 1);
                lemma_like_shift(a, 1, b, 0);
                lemma_like_shift(a, 1, b, 1);
            }
            if j + 1 < p.len() {
                assert(b[1] == p[j + 1]);
                assert(b.skip(2) =~= p.skip(j + 2));
                lemma_like_shift(s, i + 1, p, j + 2);
                if i > 0 || j > 0 {
                    lemma_like_shift(a, 1, b, 2);
                }
            }
        } else {
            if i > 0 || j > 0 {
                lemma_like_shift(a, 0, b, 1);
            }
        }
        assert(a.skip(0) =~= a);
        assert(b.skip(0) =~= b);
    }
    if i == 0 && j == 0 {
        assert(a =~= s);
        assert(b =~= p);
    }
}

proof fn lemma_like_any(s: Seq<char>, p: Seq<char>, i: int)
    requires
        0 <= i <= s.len(),
    ensures
        eval::like_from(s, i, seq!['%'] + p, 0) <==> exists|k: int|
            i <= k <= s.len() && #[trigger] is_like(s.skip(k), p),
    decreases s.len() - i,
{
    let all = seq!['%'] + p;
    assert(all.skip(1) =~= p);
    lemma_like_shift(s, i, all, 1);
    if i < s.len() {
        lemma_like_any(s, p, i + 1);
        if exists|k: int| i <= k <= s.len() && #[trigger] is_like(s.skip(k), p) {
            let k = choose|k: int| i <= k <= s.len() && #[trigger] is_like(s.skip(k), p);
            if k > i {
                assert(i + 1 <= k <= s.len() && is_like(s.skip(k), p));
            }
        }
    } else if exists|k: int| i <= k <= s.len() && #[trigger] is_like(s.skip(k), p) {
        let k = choose|k: int| i <= k <= s.len() && #[trigger] is_like(s.skip(k), p);
        assert(k == i);
    }
}

/// What the parts of a pattern stand for: the empty pattern for the empty text, `%` for any
/// characters, `_` for one character, a backslash and a character for that character, a
/// backslash at the end and any other character for itself.
pub proof fn law_patterns(s: Seq<char>, p: Seq<char>, c: char)
    ensures
        is_like(s, Seq::empty()) <==> s.len() == 0,
        is_like(s, seq!['%'] + p) <==> exists|k: int|
            0 <= k <= s.len() && #[trigger] is_like(s.skip(k), p),
        is_like(s, seq!['_'] + p) <==> s.len() > 0 && is_like(s.skip(1), p),
        is_like(s, seq!['\\', c] + p) <==> s.len() > 0 && s[0] == c && is_like(s.skip(1), p),
        is_like(s, seq!['\\']) <==> s == seq!['\\'],
        c != '%' && c != '_' && c != '\\' ==> (is_like(s, seq![c] + p) <==> s.len() > 0 && s[0]
            == c && is_like(s.skip(1), p)),
{
    lemma_like_any(s, p, 0);
    let one = seq!['_'] + p;
    let two = seq!['\\', c] + p;
    let own = seq![c] + p;
    assert(one.skip(1) =~= p);
    assert(two.skip(2) =~= p);
    assert(own.skip(1) =~= p);
    let end = seq!['\\'];
    if s.len() > 0 {
        lemma_like_shift(s, 1, one, 1);
        lemma_like_shift(s, 1, two, 2);
        lemma_like_shift(s, 1, own, 1);
        lemma_like_shift(s, 1, end, 1);
        assert(end.skip(1) =~= Seq::empty());
        if s.len() == 1 && s[0] == '\\' {
            assert(s =~= end);
        }
    }
}

/// `LIKE` says whether a text matches a pattern, `NOT LIKE` whether it does not; both are
/// unknown if one of the two is null.
pub proof fn law_like_values(
    cx: CxModel,
    env: Env,
    group: Option<Seq<Tuple>>,
    x: Box<Expr>,
    y: Box<Expr>,
    a: Datum,
    b: Datum,
)
    requires
        is_worth(cx, env, group, *x, a),
        is_worth(cx, env, group, *y, b),
    ensures
        a == Datum::Null || b == Datum::Null ==> {
            &&& is_worth(cx, env, group, Expr::Like(x, y, false), Datum::Null)
            &&& is_worth(cx, env, group, Expr::Like(x, y, true), Datum::Null)
        },
        a matches Datum::Text(i) ==> b matches Datum::Text(j) ==> {
            let like = is_like(symbols::text_at(cx.symbols, i), symbols::text_at(cx.symbols, j));
            &&& is_worth(cx, env, group, Expr::Like(x, y, false), Datum::Bool(like))
            &&& is_worth(cx, env, group, Expr::Like(x, y, true), Datum::Bool(!like))
        },
{
}

/// The number that a calculation is to give, where it is not a division.
pub open spec fn outcome(op: Arith, p: int, q: int) -> int {
    match op {
        Arith::Plus => p + q,
        Arith::Minus => p - q,
        _ => p * q,
    }
}

/// Whether a number fits the type of a calculation: 32 bits if both values have 32.
pub open spec fn fits(a: Datum, b: Datum, n: int) -> bool {
    if a is Int && b is Int {
        i32::MIN <= n <= i32::MAX
    } else {
        i64::MIN <= n <= i64::MAX
    }
}

/// Whether a value is a number of the type of a calculation.
pub open spec fn is_result(a: Datum, b: Datum, r: Datum) -> bool {
    if a is Int && b is Int {
        r is Int
    } else {
        r is Big
    }
}

/// Sums, differences and products are those of the numbers, and fail exactly if they do not
/// fit their type. A calculation with a null is null.
pub proof fn law_calculation(
    cx: CxModel,
    env: Env,
    group: Option<Seq<Tuple>>,
    op: Arith,
    x: Box<Expr>,
    y: Box<Expr>,
    a: Datum,
    b: Datum,
)
    requires
        is_worth(cx, env, group, *x, a),
        is_worth(cx, env, group, *y, b),
        op is Plus || op is Minus || op is Times,
    ensures
        a == Datum::Null || b == Datum::Null ==> is_worth(
            cx,
            env,
            group,
            Expr::Arith(op, x, y),
            Datum::Null,
        ),
        datum::is_number(a) && datum::is_number(b) ==> {
            let n = outcome(op, datum::as_number(a), datum::as_number(b));
            match eval::expr_value(cx, env, group, Expr::Arith(op, x, y)) {
                Ok(r) => fits(a, b, n) && is_result(a, b, r) && datum::as_number(r) == n,
                Err(f) => !fits(a, b, n) && f == Fault::OutOfRange,
            }
        },
{
}

/// Division fails by zero. Otherwise quotient and remainder are the only numbers that give
/// the dividend back with a remainder that is smaller than the divisor and has the sign of
/// the dividend.
pub proof fn law_division(
    cx: CxModel,
    env: Env,
    group: Option<Seq<Tuple>>,
    x: Box<Expr>,
    y: Box<Expr>,
    a: Datum,
    b: Datum,
)
    requires
        is_worth(cx, env, group, *x, a),
        is_worth(cx, env, group, *y, b),
        datum::is_number(a),
        datum::is_number(b),
    ensures
        datum::as_number(b) == 0 ==> {
            &&& eval::expr_value(cx, env, group, Expr::Arith(Arith::Divide, x, y)) == Err::<
                Datum,
                Fault,
            >(Fault::DivisionByZero)
            &&& eval::expr_value(cx, env, group, Expr::Arith(Arith::Modulo, x, y)) == Err::<
                Datum,
                Fault,
            >(Fault::DivisionByZero)
        },
        datum::as_number(b) != 0 ==> {
            let p = datum::as_number(a);
            let q = datum::as_number(b);
            let m = eval::expr_value(cx, env, group, Expr::Arith(Arith::Modulo, x, y));
            let n = eval::expr_value(cx, env, group, Expr::Arith(Arith::Divide, x, y));
            let size = if q < 0 {
                -q
            } else {
                q
            };
            &&& m is Ok
            &&& is_result(a, b, m->Ok_0)
            &&& -size < datum::as_number(m->Ok_0) < size
            &&& p >= 0 ==> datum::as_number(m->Ok_0) >= 0
            &&& p <= 0 ==> datum::as_number(m->Ok_0) <= 0
            &&& match n {
                Ok(r) => is_result(a, b, r) && datum::as_number(r) * q + datum::as_number(m->Ok_0)
                    == p,
                Err(f) => f == Fault::OutOfRange && q == -1,
            }
        },
{
    if datum::as_number(b) != 0 {
        let p = datum::as_number(a);
        let q = datum::as_number(b);
        datum::law_quotient_remainder(p, q);
        let u = datum::magnitude(p);
        let v = datum::magnitude(q);
        vstd::arithmetic::div_mod::lemma_mod_bound(u, v);
        vstd::arithmetic::div_mod::lemma_div_pos_is_pos(u, v);
        assert(u / v <= u && (v > 1 && u > 0 ==> u / v < u)) by (nonlinear_arith)
            requires
                u >= 0,
                v >= 1,
        ;
        assert(u % v <= u) by (nonlinear_arith)
            requires
                u >= 0,
                v >= 1,
        ;
        if v == 1 {
            assert(u / v == u);
        }
    }
}

/// The negative of a number is its distance below zero.
pub proof fn law_negative(
    cx: CxModel,
    env: Env,
    group: Option<Seq<Tuple>>,
    x: Box<Expr>,
    a: Datum,
)
    requires
        is_worth(cx, env, group, *x, a),
    ensures
        a == Datum::Null ==> is_worth(cx, env, group, Expr::Negate(x), Datum::Null),
        datum::is_number(a) ==> match eval::expr_value(cx, env, group, Expr::Negate(x)) {
            Ok(r) => is_result(a, a, r) && datum::as_number(r) == -datum::as_number(a),
            Err(f) => f == Fault::OutOfRange && !fits(a, a, -datum::as_number(a)),
        },
{
}

/// A reference to a column without a table leads to visible columns with the name, one with
/// a table to columns of that table with the name.
pub open spec fn leads_to(f: Field, qualifier: Option<usize>, name: usize) -> bool {
    match qualifier {
        None => f.name == name && !f.hidden,
        Some(_) => f.name == name && f.qualifier == qualifier,
    }
}

/// Whether a reference leads to the column at place `i`.
pub open spec fn leads_to_place(
    fs: Fields,
    qualifier: Option<usize>,
    name: usize,
    i: int,
) -> bool {
    0 <= i < fields::fields_len(fs) && (fields::field_at(fs, i as nat) matches Some(f) && leads_to(
        f,
        qualifier,
        name,
    ))
}

/// A search for a column finds the only place that a reference leads to.
pub proof fn lemma_find(fs: Fields, qualifier: Option<usize>, name: usize, at: usize)
    requires
        at + fields::fields_len(fs) <= usize::MAX,
    ensures
        match fields::find_from(fs, qualifier, name, at) {
            fields::Found::Missing => forall|i: int| !leads_to_place(fs, qualifier, name, i),
            fields::Found::One(k) => {
                &&& at <= k
                &&& leads_to_place(fs, qualifier, name, k - at)
                &&& forall|i: int| leads_to_place(fs, qualifier, name, i) ==> i == k - at
            },
            fields::Found::Many => exists|i: int, j: int|
                i != j && #[trigger] leads_to_place(fs, qualifier, name, i)
                    && #[trigger] leads_to_place(fs, qualifier, name, j),
        },
    decreases fs,
{
    if let Fields::Cons(f, rest) = fs {
        lemma_find(*rest, qualifier, name, fields::next_place(at));
        let here = leads_to(f, qualifier, name);
        assert(here == fields::names_field(f, qualifier, name));
        assert forall|i: int| leads_to_place(fs, qualifier, name, i) implies (i == 0 && here) || (i
            > 0 && leads_to_place(*rest, qualifier, name, i - 1)) by {
            if i > 0 {
                assert(fields::field_at(fs, i as nat) == fields::field_at(*rest, (i - 1) as nat));
            }
        }
        assert forall|i: int| leads_to_place(*rest, qualifier, name, i) implies leads_to_place(
            fs,
            qualifier,
            name,
            i + 1,
        ) by {
            assert(fields::field_at(fs, (i + 1) as nat) == fields::field_at(*rest, i as nat));
        }
        if here {
            assert(leads_to_place(fs, qualifier, name, 0));
        }
        match fields::find_from(*rest, qualifier, name, fields::next_place(at)) {
            fields::Found::Missing => {},
            fields::Found::One(k) => {
                assert(leads_to_place(fs, qualifier, name, k - at));
            },
            fields::Found::Many => {
                let (i, j) = choose|i: int, j: int|
                    i != j && #[trigger] leads_to_place(*rest, qualifier, name, i)
                        && #[trigger] leads_to_place(*rest, qualifier, name, j);
                assert(leads_to_place(fs, qualifier, name, i + 1));
                assert(leads_to_place(fs, qualifier, name, j + 1));
            },
        }
    }
}

/// A reference to a column has the value that the innermost row has in the only column it
/// leads to. It fails if it leads to two, and is looked up further out if it leads to none.
pub proof fn law_column(
    cx: CxModel,
    fs: Fields,
    row: Tuple,
    outer: Env,
    group: Option<Seq<Tuple>>,
    qualifier: Option<usize>,
    name: usize,
    i: int,
    j: int,
)
    requires
        fields::fields_len(fs) <= usize::MAX,
    ensures
        leads_to_place(fs, qualifier, name, i) && (forall|k: int|
            leads_to_place(fs, qualifier, name, k) ==> k == i) ==> is_worth(
            cx,
            Env::Frame(&fs, &row, &outer),
            group,
            Expr::Col(qualifier, name),
            datum::cell(row, i as nat),
        ),
        leads_to_place(fs, qualifier, name, i) && leads_to_place(fs, qualifier, name, j) && i != j
            ==> eval::expr_value(
            cx,
            Env::Frame(&fs, &row, &outer),
            group,
            Expr::Col(qualifier, name),
        ) == Err::<Datum, Fault>(Fault::AmbiguousColumn { name }),
        (forall|k: int| !leads_to_place(fs, qualifier, name, k)) ==> eval::expr_value(
            cx,
            Env::Frame(&fs, &row, &outer),
            group,
            Expr::Col(qualifier, name),
        ) == eval::expr_value(cx, outer, group, Expr::Col(qualifier, name)),
        eval::expr_value(cx, Env::Empty, group, Expr::Col(qualifier, name)) is Err,
{
    lemma_find(fs, qualifier, name, 0);
}

} // verus!
