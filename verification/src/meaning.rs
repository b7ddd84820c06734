//! Laws of what queries give back: conditions, joins, groups, aggregates,
//! patterns.

use vstd::prelude::*;
use crate::analyze;
use crate::analyze::CxModel;
use crate::ast::AggFn;
use crate::ast::Assigns;
use crate::ast::Columns;
use crate::ast::Combine;
use crate::ast::Distinct;
use crate::ast::Expr;
use crate::ast::Exprs;
use crate::ast::Item;
use crate::ast::Items;
use crate::ast::JoinKind;
use crate::ast::JoinOn;
use crate::ast::Name;
use crate::ast::Orders;
use crate::ast::Query;
use crate::ast::Select;
use crate::ast::Source;
use crate::catalog;
use crate::catalog::Draws;
use crate::catalog::Sequence;
use crate::catalog::TableModel;
use crate::datum;
use crate::datum::Compare;
use crate::datum::Datum;
use crate::datum::Rank;
use crate::datum::Tuple;
use crate::dml;
use crate::dml::Changed;
use crate::eval;
use crate::eval::RelModel;
use crate::fault::Fault;
use crate::fields;
use crate::fields::Env;
use crate::fields::Fields;
use crate::fields::Pairs;
use crate::relation;
use crate::relation::Keyed;
use crate::validity;

verus! {

/// Whether a condition has a value for a row.
pub open spec fn has_value(cx: CxModel, env: Env, fs: Fields, e: Expr, row: Tuple) -> bool {
    eval::expr_value(cx, Env::Frame(&fs, &row, &env), None, e) is Ok
}

/// The rows of which a condition holds.
pub open spec fn condition(cx: CxModel, env: Env, fs: Fields, e: Expr) -> spec_fn(Tuple) -> bool {
    |row: Tuple|
        match eval::expr_value(cx, Env::Frame(&fs, &row, &env), None, e) {
            Ok(d) => datum::holds(d),
            Err(_) => false,
        }
}

proof fn lemma_kept_rows(
    cx: CxModel,
    env: Env,
    fs: Fields,
    e: Expr,
    rows: Seq<Tuple>,
    i: int,
    acc: Seq<Tuple>,
)
    requires
        0 <= i <= rows.len(),
        acc == rows.take(i).filter(condition(cx, env, fs, e)),
    ensures
        match eval::kept_rows(cx, env, fs, e, rows, i, acc) {
            Ok(out) => {
                &&& out == rows.filter(condition(cx, env, fs, e))
                &&& forall|k: int|
                    i <= k < rows.len() ==> has_value(cx, env, fs, e, #[trigger] rows[k])
            },
            Err(_) => exists|k: int|
                i <= k < rows.len() && !has_value(cx, env, fs, e, #[trigger] rows[k]),
        },
    decreases rows.len() - i,
{
    reveal(Seq::filter);
    if i < rows.len() {
        let next = rows.take(i + 1);
        assert(next.drop_last() =~= rows.take(i));
        assert(next.last() == rows[i]);
        match eval::expr_value(cx, Env::Frame(&fs, &rows[i], &env), None, e) {
            Err(_) => {
                assert(!has_value(cx, env, fs, e, rows[i]));
            },
            Ok(d) => {
                let more = if datum::holds(d) {
                    acc.push(rows[i])
                } else {
                    acc
                };
                assert(more == next.filter(condition(cx, env, fs, e)));
                lemma_kept_rows(cx, env, fs, e, rows, i + 1, more);
                assert(has_value(cx, env, fs, e, rows[i]));
            },
        }
    } else {
        assert(rows.take(i) =~= rows);
    }
}

/// WHERE keeps exactly the rows of which its condition is true, not those of which
/// it is false or unknown, and keeps them in their order. It fails only if the
/// condition has no value for one of the rows.
pub proof fn law_where(cx: CxModel, env: Env, fs: Fields, e: Expr, rows: Seq<Tuple>)
    ensures
        match eval::kept_rows(cx, env, fs, e, rows, 0, Seq::empty()) {
            Ok(out) => {
                &&& out == rows.filter(condition(cx, env, fs, e))
                &&& forall|k: int|
                    0 <= k < rows.len() ==> has_value(cx, env, fs, e, #[trigger] rows[k])
            },
            Err(_) => exists|k: int|
                0 <= k < rows.len() && !has_value(cx, env, fs, e, #[trigger] rows[k]),
        },
{
    reveal(Seq::filter);
    assert(rows.take(0) =~= Seq::<Tuple>::empty());
    lemma_kept_rows(cx, env, fs, e, rows, 0, Seq::empty());
}

/// Whether a join keeps a pair of rows.
#[verifier::opaque]
pub open spec fn pairs_up(
    cx: CxModel,
    env: Env,
    fs: Fields,
    on: JoinOn,
    ps: Pairs,
    l: Tuple,
    r: Tuple,
) -> bool {
    eval::pair_holds(cx, env, fs, on, ps, l, r) == Ok::<bool, Fault>(true)
}

/// Whether a left row makes the row `x` with one of the right rows.
pub open spec fn made_with(
    cx: CxModel,
    env: Env,
    fs: Fields,
    on: JoinOn,
    ps: Pairs,
    l: Tuple,
    rights: Seq<Tuple>,
    x: Tuple,
) -> bool {
    exists|k: int|
        0 <= k < rights.len() && pairs_up(cx, env, fs, on, ps, l, #[trigger] rights[k]) && x
            == fields::joined(ps, l, rights[k])
}

/// Whether a left row has no match among the right rows.
pub open spec fn is_lonely_left(
    cx: CxModel,
    env: Env,
    fs: Fields,
    on: JoinOn,
    ps: Pairs,
    l: Tuple,
    rights: Seq<Tuple>,
) -> bool {
    forall|k: int| 0 <= k < rights.len() ==> !pairs_up(cx, env, fs, on, ps, l, #[trigger] rights[k])
}

/// Whether a right row has no match among the left rows.
pub open spec fn is_lonely_right(
    cx: CxModel,
    env: Env,
    fs: Fields,
    on: JoinOn,
    ps: Pairs,
    r: Tuple,
    lefts: Seq<Tuple>,
) -> bool {
    forall|i: int| 0 <= i < lefts.len() ==> !pairs_up(cx, env, fs, on, ps, #[trigger] lefts[i], r)
}

proof fn lemma_push_contains(s: Seq<Tuple>, y: Tuple, x: Tuple)
    ensures
        s.push(y).contains(x) <==> s.contains(x) || x == y,
{
    if s.contains(x) {
        let i = choose|i: int| 0 <= i < s.len() && s[i] == x;
        assert(s.push(y)[i] == x);
    }
    assert(s.push(y)[s.len() as int] == y);
    if s.push(y).contains(x) && x != y {
        let i = choose|i: int| 0 <= i < s.push(y).len() && s.push(y)[i] == x;
        assert(s[i] == x);
    }
}

proof fn lemma_matches_step(
    cx: CxModel,
    env: Env,
    fs: Fields,
    on: JoinOn,
    ps: Pairs,
    l: Tuple,
    rights: Seq<Tuple>,
    j: int,
    acc: Seq<Tuple>,
)
    requires
        0 <= j < rights.len(),
        eval::matches_from(cx, env, fs, on, ps, l, rights, j, acc) is Ok,
    ensures
        eval::matches_from(cx, env, fs, on, ps, l, rights, j, acc) == eval::matches_from(
            cx,
            env,
            fs,
            on,
            ps,
            l,
            rights,
            j + 1,
            if pairs_up(cx, env, fs, on, ps, l, rights[j]) {
                acc.push(fields::joined(ps, l, rights[j]))
            } else {
                acc
            },
        ),
{
    reveal(pairs_up);
}

proof fn lemma_matches(
    cx: CxModel,
    env: Env,
    fs: Fields,
    on: JoinOn,
    ps: Pairs,
    l: Tuple,
    rights: Seq<Tuple>,
    j: int,
    acc: Seq<Tuple>,
    x: Tuple,
)
    requires
        0 <= j <= rights.len(),
        eval::matches_from(cx, env, fs, on, ps, l, rights, j, acc) is Ok,
    ensures
        eval::matches_from(cx, env, fs, on, ps, l, rights, j, acc)->Ok_0.contains(x) <==> {
            ||| acc.contains(x)
            ||| exists|k: int|
                j <= k < rights.len() && pairs_up(cx, env, fs, on, ps, l, #[trigger] rights[k]) && x
                    == fields::joined(ps, l, rights[k])
        },
    decreases rights.len() - j,
{
    if j < rights.len() {
        let y = fields::joined(ps, l, rights[j]);
        let more = if pairs_up(cx, env, fs, on, ps, l, rights[j]) {
            acc.push(y)
        } else {
            acc
        };
        lemma_matches_step(cx, env, fs, on, ps, l, rights, j, acc);
        lemma_matches(cx, env, fs, on, ps, l, rights, j + 1, more, x);
        lemma_push_contains(acc, y, x);
        if exists|k: int|
            j <= k < rights.len() && pairs_up(cx, env, fs, on, ps, l, #[trigger] rights[k]) && x
                == fields::joined(ps, l, rights[k]) {
            let k = choose|k: int|
                j <= k < rights.len() && pairs_up(cx, env, fs, on, ps, l, #[trigger] rights[k]) && x
                    == fields::joined(ps, l, rights[k]);
            if k > j {
                assert(j + 1 <= k);
            }
        }
    }
}

/// Whether a left row makes the row `x`: with a match, or with `filler` if it has
/// none and `pad` is set.
pub open spec fn left_makes(
    cx: CxModel,
    env: Env,
    fs: Fields,
    on: JoinOn,
    ps: Pairs,
    pad: bool,
    filler: Tuple,
    l: Tuple,
    rights: Seq<Tuple>,
    x: Tuple,
) -> bool {
    ||| made_with(cx, env, fs, on, ps, l, rights, x)
    ||| pad && is_lonely_left(cx, env, fs, on, ps, l, rights) && x == fields::joined(ps, l, filler)
}

proof fn lemma_left_row(
    cx: CxModel,
    env: Env,
    fs: Fields,
    on: JoinOn,
    ps: Pairs,
    pad: bool,
    filler: Tuple,
    l: Tuple,
    rights: Seq<Tuple>,
    acc: Seq<Tuple>,
    x: Tuple,
)
    requires
        eval::matches_from(cx, env, fs, on, ps, l, rights, 0, Seq::empty()) is Ok,
    ensures
        ({
            let ms = eval::matches_from(cx, env, fs, on, ps, l, rights, 0, Seq::empty())->Ok_0;
            let more = if pad && ms.len() == 0 {
                acc.push(fields::joined(ps, l, filler))
            } else {
                acc + ms
            };
            more.contains(x) <==> acc.contains(x) || left_makes(
                cx,
                env,
                fs,
                on,
                ps,
                pad,
                filler,
                l,
                rights,
                x,
            )
        }),
{
    let ms = eval::matches_from(cx, env, fs, on, ps, l, rights, 0, Seq::empty())->Ok_0;
    lemma_matches(cx, env, fs, on, ps, l, rights, 0, Seq::empty(), x);
    assert(ms.contains(x) <==> made_with(cx, env, fs, on, ps, l, rights, x));
    if ms.len() == 0 {
        assert forall|k: int| 0 <= k < rights.len() implies !pairs_up(
            cx,
            env,
            fs,
            on,
            ps,
            l,
            #[trigger] rights[k],
        ) by {
            lemma_matches(
                cx,
                env,
                fs,
                on,
                ps,
                l,
                rights,
                0,
                Seq::empty(),
                fields::joined(ps, l, rights[k]),
            );
        }
    } else {
        lemma_matches(cx, env, fs, on, ps, l, rights, 0, Seq::empty(), ms[0]);
        assert(ms.contains(ms[0]));
    }
    lemma_push_contains(acc, fields::joined(ps, l, filler), x);
    lemma_add_contains(acc, ms, x);
}

proof fn lemma_add_contains(a: Seq<Tuple>, b: Seq<Tuple>, x: Tuple)
    ensures
        (a + b).contains(x) <==> a.contains(x) || b.contains(x),
{
    if a.contains(x) {
        let i = choose|i: int| 0 <= i < a.len() && a[i] == x;
        assert((a + b)[i] == x);
    }
    if b.contains(x) {
        let i = choose|i: int| 0 <= i < b.len() && b[i] == x;
        assert((a + b)[a.len() + i] == x);
    }
    if (a + b).contains(x) {
        let i = choose|i: int| 0 <= i < (a + b).len() && (a + b)[i] == x;
        if i < a.len() {
            assert(a[i] == x);
        } else {
            assert(b[i - a.len()] == x);
        }
    }
}

proof fn lemma_left_rows(
    cx: CxModel,
    env: Env,
    fs: Fields,
    on: JoinOn,
    ps: Pairs,
    pad: bool,
    filler: Tuple,
    lefts: Seq<Tuple>,
    rights: Seq<Tuple>,
    i: int,
    acc: Seq<Tuple>,
    x: Tuple,
)
    requires
        0 <= i <= lefts.len(),
        eval::left_rows(cx, env, fs, on, ps, pad, filler, lefts, rights, i, acc) is Ok,
    ensures
        eval::left_rows(cx, env, fs, on, ps, pad, filler, lefts, rights, i, acc)->Ok_0.contains(x)
            <==> {
            ||| acc.contains(x)
            ||| exists|m: int|
                i <= m < lefts.len() && left_makes(
                    cx,
                    env,
                    fs,
                    on,
                    ps,
                    pad,
                    filler,
                    #[trigger] lefts[m],
                    rights,
                    x,
                )
        },
    decreases lefts.len() - i,
{
    if i < lefts.len() {
        let ms = eval::matches_from(cx, env, fs, on, ps, lefts[i], rights, 0, Seq::empty())->Ok_0;
        let more = if pad && ms.len() == 0 {
            acc.push(fields::joined(ps, lefts[i], filler))
        } else {
            acc + ms
        };
        lemma_left_row(cx, env, fs, on, ps, pad, filler, lefts[i], rights, acc, x);
        lemma_left_rows(cx, env, fs, on, ps, pad, filler, lefts, rights, i + 1, more, x);
        if exists|m: int|
            i <= m < lefts.len() && left_makes(
                cx,
                env,
                fs,
                on,
                ps,
                pad,
                filler,
                #[trigger] lefts[m],
                rights,
                x,
            ) {
            let m = choose|m: int|
                i <= m < lefts.len() && left_makes(
                    cx,
                    env,
                    fs,
                    on,
                    ps,
                    pad,
                    filler,
                    #[trigger] lefts[m],
                    rights,
                    x,
                );
            if m > i {
                assert(i + 1 <= m);
            }
        }
    }
}

proof fn lemma_has_left_step(
    cx: CxModel,
    env: Env,
    fs: Fields,
    on: JoinOn,
    ps: Pairs,
    r: Tuple,
    lefts: Seq<Tuple>,
    i: int,
)
    requires
        0 <= i < lefts.len(),
        eval::has_left(cx, env, fs, on, ps, r, lefts, i) is Ok,
    ensures
        if pairs_up(cx, env, fs, on, ps, lefts[i], r) {
            eval::has_left(cx, env, fs, on, ps, r, lefts, i) == Ok::<bool, Fault>(true)
        } else {
            eval::has_left(cx, env, fs, on, ps, r, lefts, i) == eval::has_left(
                cx,
                env,
                fs,
                on,
                ps,
                r,
                lefts,
                i + 1,
            )
        },
{
    reveal(pairs_up);
}

/// A search among the left rows finds whether one of them makes a pair with a right row.
pub proof fn lemma_has_left(
    cx: CxModel,
    env: Env,
    fs: Fields,
    on: JoinOn,
    ps: Pairs,
    r: Tuple,
    lefts: Seq<Tuple>,
    i: int,
)
    requires
        0 <= i <= lefts.len(),
        eval::has_left(cx, env, fs, on, ps, r, lefts, i) is Ok,
    ensures
        eval::has_left(cx, env, fs, on, ps, r, lefts, i)->Ok_0 <==> exists|m: int|
            i <= m < lefts.len() && pairs_up(cx, env, fs, on, ps, #[trigger] lefts[m], r),
    decreases lefts.len() - i,
{
    if i < lefts.len() {
        lemma_has_left_step(cx, env, fs, on, ps, r, lefts, i);
        if !pairs_up(cx, env, fs, on, ps, lefts[i], r) {
            lemma_has_left(cx, env, fs, on, ps, r, lefts, i + 1);
        }
    }
}

proof fn lemma_lonely_rights(
    cx: CxModel,
    env: Env,
    fs: Fields,
    on: JoinOn,
    ps: Pairs,
    filler: Tuple,
    lefts: Seq<Tuple>,
    rights: Seq<Tuple>,
    j: int,
    acc: Seq<Tuple>,
    x: Tuple,
)
    requires
        0 <= j <= rights.len(),
        eval::lonely_rights(cx, env, fs, on, ps, filler, lefts, rights, j, acc) is Ok,
    ensures
        eval::lonely_rights(cx, env, fs, on, ps, filler, lefts, rights, j, acc)->Ok_0.contains(x)
            <==> {
            ||| acc.contains(x)
            ||| exists|k: int|
                j <= k < rights.len() && is_lonely_right(
                    cx,
                    env,
                    fs,
                    on,
                    ps,
                    #[trigger] rights[k],
                    lefts,
                ) && x == fields::joined(ps, filler, rights[k])
        },
    decreases rights.len() - j,
{
    if j < rights.len() {
        let y = fields::joined(ps, filler, rights[j]);
        let b = eval::has_left(cx, env, fs, on, ps, rights[j], lefts, 0)->Ok_0;
        let more = if b {
            acc
        } else {
            acc.push(y)
        };
        lemma_has_left(cx, env, fs, on, ps, rights[j], lefts, 0);
        lemma_push_contains(acc, y, x);
        lemma_lonely_rights(cx, env, fs, on, ps, filler, lefts, rights, j + 1, more, x);
        assert(is_lonely_right(cx, env, fs, on, ps, rights[j], lefts) == !b);
        if exists|k: int|
            j <= k < rights.len() && is_lonely_right(
                cx,
                env,
                fs,
                on,
                ps,
                #[trigger] rights[k],
                lefts,
            ) && x == fields::joined(ps, filler, rights[k]) {
            let k = choose|k: int|
                j <= k < rights.len() && is_lonely_right(
                    cx,
                    env,
                    fs,
                    on,
                    ps,
                    #[trigger] rights[k],
                    lefts,
                ) && x == fields::joined(ps, filler, rights[k]);
            if k > j {
                assert(j + 1 <= k);
            }
        }
    }
}

/// A join holds each pair of rows that its condition is true of. A left join also
/// holds each left row without a match, once with nulls for the right columns, a
/// right join each right row without a match, a full join both. No join holds
/// another row.
pub proof fn law_join(
    cx: CxModel,
    env: Env,
    kind: JoinKind,
    fs: Fields,
    on: JoinOn,
    ps: Pairs,
    l: RelModel,
    r: RelModel,
    x: Tuple,
)
    requires
        eval::join_rows(cx, env, kind, fs, on, ps, l, r) is Ok,
    ensures
        eval::join_rows(cx, env, kind, fs, on, ps, l, r)->Ok_0.contains(x) <==> {
            ||| exists|i: int|
                0 <= i < l.rows.len() && made_with(
                    cx,
                    env,
                    fs,
                    on,
                    ps,
                    #[trigger] l.rows[i],
                    r.rows,
                    x,
                )
            ||| (kind is Left || kind is Full) && exists|i: int|
                0 <= i < l.rows.len() && is_lonely_left(
                    cx,
                    env,
                    fs,
                    on,
                    ps,
                    #[trigger] l.rows[i],
                    r.rows,
                ) && x == fields::joined(
                    ps,
                    l.rows[i],
                    datum::nulls(fields::fields_len(r.fields)),
                )
            ||| (kind is Right || kind is Full) && exists|k: int|
                0 <= k < r.rows.len() && is_lonely_right(
                    cx,
                    env,
                    fs,
                    on,
                    ps,
                    #[trigger] r.rows[k],
                    l.rows,
                ) && x == fields::joined(
                    ps,
                    datum::nulls(fields::fields_len(l.fields)),
                    r.rows[k],
                )
        },
{
    let pad = kind is Left || kind is Full;
    let right_nulls = datum::nulls(fields::fields_len(r.fields));
    let left_nulls = datum::nulls(fields::fields_len(l.fields));
    lemma_left_rows(
        cx,
        env,
        fs,
        on,
        ps,
        pad,
        right_nulls,
        l.rows,
        r.rows,
        0,
        Seq::empty(),
        x,
    );
    let rows = eval::left_rows(
        cx,
        env,
        fs,
        on,
        ps,
        pad,
        right_nulls,
        l.rows,
        r.rows,
        0,
        Seq::empty(),
    )->Ok_0;
    if kind is Right || kind is Full {
        lemma_lonely_rights(cx, env, fs, on, ps, left_nulls, l.rows, r.rows, 0, rows, x);
    }
}

proof fn lemma_cross_matches(
    cx: CxModel,
    env: Env,
    fs: Fields,
    ps: Pairs,
    l: Tuple,
    rights: Seq<Tuple>,
    j: int,
    acc: Seq<Tuple>,
)
    requires
        0 <= j <= rights.len(),
    ensures
        eval::matches_from(cx, env, fs, JoinOn::Always, ps, l, rights, j, acc) is Ok,
        eval::matches_from(cx, env, fs, JoinOn::Always, ps, l, rights, j, acc)->Ok_0.len()
            == acc.len() + rights.len() - j,
    decreases rights.len() - j,
{
    if j < rights.len() {
        let y = fields::joined(ps, l, rights[j]);
        assert(eval::pair_holds(cx, env, fs, JoinOn::Always, ps, l, rights[j]) == Ok::<bool, Fault>(
            true,
        ));
        lemma_cross_matches(cx, env, fs, ps, l, rights, j + 1, acc.push(y));
    }
}

proof fn lemma_cross_rows(
    cx: CxModel,
    env: Env,
    fs: Fields,
    ps: Pairs,
    filler: Tuple,
    lefts: Seq<Tuple>,
    rights: Seq<Tuple>,
    i: int,
    acc: Seq<Tuple>,
)
    requires
        0 <= i <= lefts.len(),
    ensures
        eval::left_rows(
            cx,
            env,
            fs,
            JoinOn::Always,
            ps,
            false,
            filler,
            lefts,
            rights,
            i,
            acc,
        ) is Ok,
        eval::left_rows(
            cx,
            env,
            fs,
            JoinOn::Always,
            ps,
            false,
            filler,
            lefts,
            rights,
            i,
            acc,
        )->Ok_0.len() == acc.len() + (lefts.len() - i) * rights.len(),
    decreases lefts.len() - i,
{
    if i < lefts.len() {
        lemma_cross_matches(cx, env, fs, ps, lefts[i], rights, 0, Seq::empty());
        let ms = eval::matches_from(
            cx,
            env,
            fs,
            JoinOn::Always,
            ps,
            lefts[i],
            rights,
            0,
            Seq::empty(),
        )->Ok_0;
        lemma_cross_rows(cx, env, fs, ps, filler, lefts, rights, i + 1, acc + ms);
        let n = lefts.len() - i;
        let m = rights.len() as int;
        assert(m + (n - 1) * m == n * m) by (nonlinear_arith);
    } else {
        assert((lefts.len() - i) * rights.len() == 0) by (nonlinear_arith)
            requires
                lefts.len() == i,
        ;
    }
}

/// A cross join never fails and has as many rows as the product of its sides.
pub proof fn law_cross_join(
    cx: CxModel,
    env: Env,
    fs: Fields,
    ps: Pairs,
    l: RelModel,
    r: RelModel,
)
    ensures
        eval::join_rows(cx, env, JoinKind::Inner, fs, JoinOn::Always, ps, l, r) is Ok,
        eval::join_rows(cx, env, JoinKind::Inner, fs, JoinOn::Always, ps, l, r)->Ok_0.len()
            == l.rows.len() * r.rows.len(),
{
    lemma_cross_rows(
        cx,
        env,
        fs,
        ps,
        datum::nulls(fields::fields_len(r.fields)),
        l.rows,
        r.rows,
        0,
        Seq::empty(),
    );
}

/// The number of rows in the first `n` groups.
pub open spec fn grouped_len(ks: Seq<Keyed>, heads: Seq<Keyed>, n: int) -> nat
    decreases n,
{
    if n <= 0 {
        0
    } else {
        grouped_len(ks, heads, n - 1) + eval::group_members(ks, heads[n - 1].on).len()
    }
}

/// Whether no two groups have the same values.
pub open spec fn are_apart(heads: Seq<Keyed>) -> bool {
    forall|i: int, j: int|
        0 <= i < j < heads.len() ==> (#[trigger] heads[i]).on != (#[trigger] heads[j]).on
}

proof fn lemma_distinct_on(ks: Seq<Keyed>, k: int)
    ensures
        are_apart(relation::distinct_on(ks)),
        0 <= k < ks.len() ==> relation::seen_on(
            relation::distinct_on(ks),
            ks[k].on,
            relation::distinct_on(ks).len() as int,
        ),
    decreases ks.len(),
{
    if ks.len() > 0 {
        let before = ks.drop_last();
        let heads = relation::distinct_on(before);
        let all = relation::distinct_on(ks);
        lemma_distinct_on(before, k);
        if 0 <= k < before.len() {
            assert(before[k] == ks[k]);
            let j = choose|j: int| 0 <= j < heads.len() && (#[trigger] heads[j]).on == ks[k].on;
            assert(all[j].on == ks[k].on);
        } else if k == before.len() && !relation::seen_on(
            heads,
            ks.last().on,
            heads.len() as int,
        ) {
            assert(all[heads.len() as int].on == ks[k].on);
        }
        assert forall|i: int, j: int| 0 <= i < j < all.len() implies (#[trigger] all[i]).on != (
        #[trigger] all[j]).on by {
            assert(all[i] == heads[i]);
            if j < heads.len() {
                assert(all[j] == heads[j]);
            }
        }
    }
}

proof fn lemma_members_push(ks: Seq<Keyed>, x: Keyed, on: Tuple)
    ensures
        eval::group_members(ks.push(x), on) == if x.on == on {
            eval::group_members(ks, on).push(x.out)
        } else {
            eval::group_members(ks, on)
        },
{
    assert(ks.push(x).drop_last() =~= ks);
}

proof fn lemma_grouped_push(ks: Seq<Keyed>, x: Keyed, heads: Seq<Keyed>, n: int)
    requires
        are_apart(heads),
        0 <= n <= heads.len(),
    ensures
        grouped_len(ks.push(x), heads, n) == grouped_len(ks, heads, n) + if relation::seen_on(
            heads,
            x.on,
            n,
        ) {
            1int
        } else {
            0int
        },
    decreases n,
{
    if n > 0 {
        lemma_grouped_push(ks, x, heads, n - 1);
        lemma_members_push(ks, x, heads[n - 1].on);
        if relation::seen_on(heads, x.on, n) && heads[n - 1].on != x.on {
            let j = choose|j: int| 0 <= j < n && (#[trigger] heads[j]).on == x.on;
            assert(j < n - 1);
        }
    }
}

proof fn lemma_grouped_len(ks: Seq<Keyed>, heads: Seq<Keyed>)
    requires
        are_apart(heads),
        forall|k: int|
            0 <= k < ks.len() ==> relation::seen_on(
                heads,
                (#[trigger] ks[k]).on,
                heads.len() as int,
            ),
    ensures
        grouped_len(ks, heads, heads.len() as int) == ks.len(),
    decreases ks.len(),
{
    if ks.len() > 0 {
        let before = ks.drop_last();
        assert forall|k: int| 0 <= k < before.len() implies relation::seen_on(
            heads,
            (#[trigger] before[k]).on,
            heads.len() as int,
        ) by {
            assert(before[k] == ks[k]);
        }
        lemma_grouped_len(before, heads);
        lemma_grouped_push(before, ks.last(), heads, heads.len() as int);
        assert(before.push(ks.last()) =~= ks);
        assert(relation::seen_on(heads, ks[ks.len() - 1].on, heads.len() as int));
    } else {
        lemma_no_members(ks, heads, heads.len() as int);
    }
}

proof fn lemma_no_members(ks: Seq<Keyed>, heads: Seq<Keyed>, n: int)
    requires
        ks.len() == 0,
    ensures
        grouped_len(ks, heads, n) == 0,
    decreases n,
{
    if n > 0 {
        lemma_no_members(ks, heads, n - 1);
    }
}

proof fn lemma_members(ks: Seq<Keyed>, on: Tuple, x: Tuple)
    ensures
        eval::group_members(ks, on).contains(x) <==> exists|k: int|
            0 <= k < ks.len() && (#[trigger] ks[k]).on == on && ks[k].out == x,
    decreases ks.len(),
{
    if ks.len() > 0 {
        let before = ks.drop_last();
        lemma_members(before, on, x);
        lemma_push_contains(eval::group_members(before, on), ks.last().out, x);
        if exists|k: int| 0 <= k < ks.len() && (#[trigger] ks[k]).on == on && ks[k].out == x {
            let k = choose|k: int|
                0 <= k < ks.len() && (#[trigger] ks[k]).on == on && ks[k].out == x;
            if k < before.len() {
                assert(before[k] == ks[k]);
            }
        }
        if exists|k: int|
            0 <= k < before.len() && (#[trigger] before[k]).on == on && before[k].out == x {
            let k = choose|k: int|
                0 <= k < before.len() && (#[trigger] before[k]).on == on && before[k].out == x;
            assert(ks[k] == before[k]);
        }
        assert(ks[ks.len() - 1] == ks.last());
    }
}

/// GROUP BY puts every row into one group: the groups have different values, each
/// group holds the rows with its values and no other, and together they hold as
/// many rows as there are.
pub proof fn law_groups(ks: Seq<Keyed>, on: Tuple, x: Tuple)
    ensures
        are_apart(relation::distinct_on(ks)),
        forall|k: int|
            0 <= k < ks.len() ==> relation::seen_on(
                relation::distinct_on(ks),
                (#[trigger] ks[k]).on,
                relation::distinct_on(ks).len() as int,
            ),
        eval::group_members(ks, on).contains(x) <==> exists|k: int|
            0 <= k < ks.len() && (#[trigger] ks[k]).on == on && ks[k].out == x,
        grouped_len(ks, relation::distinct_on(ks), relation::distinct_on(ks).len() as int)
            == ks.len(),
{
    let heads = relation::distinct_on(ks);
    lemma_distinct_on(ks, 0);
    assert forall|k: int| 0 <= k < ks.len() implies relation::seen_on(
        heads,
        (#[trigger] ks[k]).on,
        heads.len() as int,
    ) by {
        lemma_distinct_on(ks, k);
    }
    lemma_members(ks, on, x);
    lemma_grouped_len(ks, heads);
}

/// Whether no value comes before `x`, if `least`, or after it, otherwise.
pub open spec fn is_extreme(t: Seq<Seq<char>>, least: bool, vs: Seq<Datum>, x: Datum) -> bool {
    forall|k: int|
        0 <= k < vs.len() ==> datum::rank(t, #[trigger] vs[k], x) != if least {
            Rank::Less
        } else {
            Rank::More
        }
}

proof fn lemma_extreme(t: Seq<Seq<char>>, least: bool, vs: Seq<Datum>, i: int, acc: Datum)
    requires
        forall|k: int| 0 <= k < vs.len() ==> #[trigger] vs[k] != Datum::Null,
        0 <= i <= vs.len(),
        i == 0 ==> acc == Datum::Null,
        i > 0 ==> vs.take(i).contains(acc) && is_extreme(t, least, vs.take(i), acc),
    ensures
        ({
            let x = eval::extreme_from(t, least, vs, i, acc);
            if vs.len() == 0 {
                x == Datum::Null
            } else {
                vs.contains(x) && is_extreme(t, least, vs, x)
            }
        }),
    decreases vs.len() - i,
{
    if i < vs.len() {
        let v = vs[i];
        let r = datum::rank(t, v, acc);
        let takes = acc == Datum::Null || (least && r == Rank::Less) || (!least && r == Rank::More);
        let best = if takes {
            v
        } else {
            acc
        };
        let done = vs.take(i + 1);
        assert(done =~= vs.take(i).push(v));
        assert(done[i] == v);
        if i > 0 {
            let k = choose|k: int| 0 <= k < i && vs.take(i)[k] == acc;
            assert(done[k] == acc);
            assert(vs[k] == acc);
            assert(acc != Datum::Null);
        }
        assert(done.contains(best));
        assert forall|k: int| 0 <= k < done.len() implies datum::rank(t, #[trigger] done[k], best)
            != if least {
            Rank::Less
        } else {
            Rank::More
        } by {
            datum::law_rank_total(t, best, best);
            datum::law_rank_total(t, v, acc);
            if k < i {
                let w = vs.take(i)[k];
                assert(done[k] == w);
                datum::law_rank_total(t, w, acc);
                datum::law_rank_total(t, w, best);
                if takes {
                    if least {
                        if datum::rank(t, w, v) is Less {
                            datum::law_rank_transitive(t, acc, w, v);
                        }
                    } else {
                        if datum::rank(t, w, v) is More {
                            datum::law_rank_transitive(t, v, w, acc);
                        }
                    }
                }
            } else if !takes {
                assert(done[k] == v);
            }
        }
        lemma_extreme(t, least, vs, i + 1, best);
    } else {
        assert(vs.take(i) =~= vs);
    }
}

/// MIN is one of the values, and none comes before it; MAX is one of them, and none
/// comes after it; both are null if there is no value.
pub proof fn law_extremes(t: Seq<Seq<char>>, vs: Seq<Datum>)
    requires
        forall|k: int| 0 <= k < vs.len() ==> #[trigger] vs[k] != Datum::Null,
    ensures
        match eval::aggregate(t, AggFn::Min, false, vs) {
            Ok(x) => if vs.len() == 0 {
                x == Datum::Null
            } else {
                vs.contains(x) && is_extreme(t, true, vs, x)
            },
            Err(_) => false,
        },
        match eval::aggregate(t, AggFn::Max, false, vs) {
            Ok(x) => if vs.len() == 0 {
                x == Datum::Null
            } else {
                vs.contains(x) && is_extreme(t, false, vs, x)
            },
            Err(_) => false,
        },
{
    lemma_extreme(t, true, vs, 0, Datum::Null);
    lemma_extreme(t, false, vs, 0, Datum::Null);
}

/// The sum of the first `n` numbers.
pub open spec fn total(vs: Seq<Datum>, n: int) -> int
    decreases n,
{
    if n <= 0 {
        0
    } else {
        total(vs, n - 1) + datum::as_number(vs[n - 1])
    }
}

proof fn lemma_sum(vs: Seq<Datum>, i: int, acc: Datum)
    requires
        forall|k: int| 0 <= k < vs.len() ==> datum::is_number(#[trigger] vs[k]),
        0 <= i <= vs.len(),
        if i == 0 {
            acc == Datum::Null
        } else {
            datum::is_number(acc) && datum::as_number(acc) == total(vs, i)
        },
    ensures
        match eval::sum_from(vs, i, acc) {
            Ok(x) => if vs.len() == 0 {
                x == Datum::Null
            } else {
                datum::is_number(x) && datum::as_number(x) == total(vs, vs.len() as int)
            },
            Err(f) => f == Fault::OutOfRange,
        },
    decreases vs.len() - i,
{
    if i < vs.len() {
        if i == 0 {
            assert(total(vs, 1) == total(vs, 0) + datum::as_number(vs[0]));
            lemma_sum(vs, 1, vs[0]);
        } else {
            match eval::arith_value(datum::calculated(datum::Arith::Plus, acc, vs[i])) {
                Ok(d) => {
                    lemma_sum(vs, i + 1, d);
                },
                Err(_) => {},
            }
        }
    }
}

/// SUM is the sum of the numbers, null if there are none, and fails only if the
/// sum, or that of the first of them, is out of range.
pub proof fn law_sum(t: Seq<Seq<char>>, vs: Seq<Datum>)
    requires
        forall|k: int| 0 <= k < vs.len() ==> datum::is_number(#[trigger] vs[k]),
    ensures
        match eval::aggregate(t, AggFn::Sum, false, vs) {
            Ok(x) => if vs.len() == 0 {
                x == Datum::Null
            } else {
                datum::is_number(x) && datum::as_number(x) == total(vs, vs.len() as int)
            },
            Err(f) => f == Fault::OutOfRange,
        },
{
    lemma_sum(vs, 0, Datum::Null);
}

/// COUNT(DISTINCT ..) counts every value once.
pub proof fn law_distinct_values(vs: Seq<Datum>, x: Datum)
    ensures
        eval::distinct_values(vs).no_duplicates(),
        eval::distinct_values(vs).contains(x) <==> vs.contains(x),
    decreases vs.len(),
{
    if vs.len() > 0 {
        let before = vs.drop_last();
        let kept = eval::distinct_values(before);
        let y = vs.last();
        law_distinct_values(before, x);
        law_distinct_values(before, y);
        assert(vs =~= before.push(y));
        if before.contains(x) {
            let i = choose|i: int| 0 <= i < before.len() && before[i] == x;
            assert(vs[i] == x);
        }
        assert(vs[vs.len() - 1] == y);
        if vs.contains(x) && x != y {
            let i = choose|i: int| 0 <= i < vs.len() && vs[i] == x;
            assert(before[i] == x);
        }
        if !kept.contains(y) {
            let all = kept.push(y);
            if kept.contains(x) {
                let i = choose|i: int| 0 <= i < kept.len() && kept[i] == x;
                assert(all[i] == x);
            }
            assert(all[kept.len() as int] == y);
            if all.contains(x) && x != y {
                let i = choose|i: int| 0 <= i < all.len() && all[i] == x;
                assert(kept[i] == x);
            }
        }
    }
}

proof fn lemma_member(t: Seq<Seq<char>>, x: Datum, rows: Seq<Tuple>, i: int, unknown: bool)
    requires
        0 <= i <= rows.len(),
    ensures
        ({
            let m = eval::member_from(t, x, rows, i, unknown);
            &&& m == Datum::Bool(true) <==> exists|k: int|
                i <= k < rows.len() && datum::compared(
                    t,
                    Compare::Eq,
                    x,
                    datum::cell(#[trigger] rows[k], 0),
                ) == Datum::Bool(true)
            &&& m == Datum::Bool(false) <==> !unknown && forall|k: int|
                i <= k < rows.len() ==> datum::compared(
                    t,
                    Compare::Eq,
                    x,
                    datum::cell(#[trigger] rows[k], 0),
                ) == Datum::Bool(false)
            &&& m == Datum::Bool(true) || m == Datum::Bool(false) || m == Datum::Null
        }),
    decreases rows.len() - i,
{
    if i < rows.len() {
        let c = datum::compared(t, Compare::Eq, x, datum::cell(rows[i], 0));
        assert(c == Datum::Bool(true) || c == Datum::Bool(false) || c == Datum::Null);
        if c != Datum::Bool(true) {
            lemma_member(t, x, rows, i + 1, unknown || c == Datum::Null);
        }
    }
}

/// IN is true if the value is equal to one of the query's values, false if it is
/// known to differ from all of them, and unknown otherwise.
pub proof fn law_in(t: Seq<Seq<char>>, x: Datum, rows: Seq<Tuple>)
    ensures
        ({
            let m = eval::member_from(t, x, rows, 0, false);
            &&& m == Datum::Bool(true) <==> exists|k: int|
                0 <= k < rows.len() && datum::compared(
                    t,
                    Compare::Eq,
                    x,
                    datum::cell(#[trigger] rows[k], 0),
                ) == Datum::Bool(true)
            &&& m == Datum::Bool(false) <==> forall|k: int|
                0 <= k < rows.len() ==> datum::compared(
                    t,
                    Compare::Eq,
                    x,
                    datum::cell(#[trigger] rows[k], 0),
                ) == Datum::Bool(false)
            &&& m == Datum::Bool(true) || m == Datum::Bool(false) || m == Datum::Null
        }),
{
    lemma_member(t, x, rows, 0, false);
}

/// Whether a pattern holds no character with a meaning of its own.
pub open spec fn is_plain(p: Seq<char>) -> bool {
    forall|k: int| 0 <= k < p.len() ==> p[k] != '%' && p[k] != '_' && p[k] != '\\'
}

proof fn lemma_plain_pattern(s: Seq<char>, p: Seq<char>, i: int)
    requires
        is_plain(p),
        0 <= i <= s.len(),
        i <= p.len(),
    ensures
        eval::like_from(s, i, p, i) <==> s.skip(i) == p.skip(i),
    decreases p.len() - i,
{
    if i == p.len() {
        assert(p.skip(i).len() == 0);
        if i == s.len() {
            assert(s.skip(i) =~= p.skip(i));
        } else {
            assert(s.skip(i).len() > 0);
        }
    } else if i == s.len() {
        assert(s.skip(i).len() != p.skip(i).len());
    } else {
        lemma_plain_pattern(s, p, i + 1);
        if s[i] == p[i] && s.skip(i + 1) == p.skip(i + 1) {
            assert(s.skip(i).len() == s.skip(i + 1).len() + 1);
            assert(p.skip(i).len() == p.skip(i + 1).len() + 1);
            assert forall|k: int| 0 <= k < s.skip(i).len() implies s.skip(i)[k] == p.skip(i)[k] by {
                if k > 0 {
                    assert(s.skip(i)[k] == s.skip(i + 1)[k - 1]);
                    assert(p.skip(i)[k] == p.skip(i + 1)[k - 1]);
                }
            }
            assert(s.skip(i) =~= p.skip(i));
        }
        if s.skip(i) == p.skip(i) {
            assert(s.skip(i)[0] == s[i]);
            assert(p.skip(i)[0] == p[i]);
            assert(s.skip(i + 1) =~= s.skip(i).skip(1));
            assert(p.skip(i + 1) =~= p.skip(i).skip(1));
        }
    }
}

proof fn lemma_any_pattern(s: Seq<char>, i: int)
    requires
        0 <= i <= s.len(),
    ensures
        eval::like_from(s, i, seq!['%'], 0),
    decreases s.len() - i,
{
    reveal_with_fuel(eval::like_from, 2);
    if i < s.len() {
        lemma_any_pattern(s, i + 1);
    }
}

/// A pattern without special characters matches its own text and no other; `%`
/// matches every text.
pub proof fn law_like(s: Seq<char>, p: Seq<char>)
    ensures
        is_plain(p) ==> (eval::like_from(s, 0, p, 0) <==> s == p),
        eval::like_from(s, 0, seq!['%'], 0),
{
    if is_plain(p) {
        lemma_plain_pattern(s, p, 0);
        assert(s.skip(0) =~= s);
        assert(p.skip(0) =~= p);
    }
    lemma_any_pattern(s, 0);
}

proof fn lemma_row_place(rows: Seq<Tuple>, x: Tuple, from: int)
    requires
        0 <= from <= rows.len(),
    ensures
        match relation::row_place(rows, x, from) {
            Some(k) => from <= k < rows.len() && rows[k] == x,
            None => forall|k: int| from <= k < rows.len() ==> #[trigger] rows[k] != x,
        },
    decreases rows.len() - from,
{
    if from < rows.len() && rows[from] != x {
        lemma_row_place(rows, x, from + 1);
    }
}

/// How often a row occurs.
pub open spec fn occurrences(rows: Seq<Tuple>, x: Tuple) -> nat {
    rows.to_multiset().count(x)
}

proof fn lemma_matched(
    a: Seq<Tuple>,
    i: int,
    b: Seq<Tuple>,
    present: bool,
    acc: Seq<Tuple>,
    x: Tuple,
)
    requires
        0 <= i <= a.len(),
    ensures
        ({
            let m = occurrences(a.skip(i), x) as int;
            let n = occurrences(b, x) as int;
            occurrences(
                relation::matched(a, i, b, present, acc),
                x,
            ) == occurrences(acc, x) + if present {
                if m < n {
                    m
                } else {
                    n
                }
            } else {
                if m < n {
                    0
                } else {
                    m - n
                }
            }
        }),
    decreases a.len() - i,
{
    broadcast use vstd::seq_lib::group_to_multiset_ensures;

    if i < a.len() {
        let rest = a.skip(i);
        assert(rest[0] == a[i]);
        assert(rest.remove(0) =~= a.skip(i + 1));
        assert(rest.contains(a[i]));
        lemma_row_place(b, a[i], 0);
        match relation::row_place(b, a[i], 0) {
            Some(k) => {
                assert(b.contains(a[i]));
                let more = if present {
                    acc.push(a[i])
                } else {
                    acc
                };
                lemma_matched(a, i + 1, b.remove(k), present, more, x);
            },
            None => {
                assert(!b.contains(a[i]));
                let more = if present {
                    acc
                } else {
                    acc.push(a[i])
                };
                lemma_matched(a, i + 1, b, present, more, x);
            },
        }
    } else {
        assert(a.skip(i) =~= Seq::empty());
    }
}

/// With ALL, a union holds a row as often as both sides together, an intersection
/// as often as the side that holds it less often, a difference as often as the left
/// side holds it more often than the right.
pub proof fn law_set_operations_all(a: Seq<Tuple>, b: Seq<Tuple>, x: Tuple)
    ensures
        occurrences(relation::combined(Combine::Union, true, a, b), x) == occurrences(a, x)
            + occurrences(b, x),
        occurrences(relation::combined(Combine::Intersect, true, a, b), x) == if occurrences(a, x)
            < occurrences(b, x) {
            occurrences(a, x)
        } else {
            occurrences(b, x)
        },
        occurrences(relation::combined(Combine::Except, true, a, b), x) == if occurrences(a, x)
            < occurrences(b, x) {
            0
        } else {
            occurrences(a, x) - occurrences(b, x)
        },
{
    broadcast use vstd::seq_lib::group_to_multiset_ensures;

    vstd::seq_lib::lemma_multiset_commutative(a, b);
    assert(a.skip(0) =~= a);
    lemma_matched(a, 0, b, true, Seq::empty(), x);
    lemma_matched(a, 0, b, false, Seq::empty(), x);
}

/// The rows of which a condition does not hold.
pub open spec fn no_condition(cx: CxModel, fs: Fields, e: Expr) -> spec_fn(Tuple) -> bool {
    |row: Tuple| !condition(cx, Env::Empty, fs, e)(row)
}

proof fn lemma_left_from(
    cx: CxModel,
    fs: Fields,
    filter: Expr,
    rows: Seq<Tuple>,
    i: int,
    acc: Changed,
)
    requires
        0 <= i <= rows.len() <= u64::MAX,
        acc.rows == rows.take(i).filter(no_condition(cx, fs, filter)),
        acc.count + acc.rows.len() == i,
    ensures
        dml::left_from(cx, fs, filter, rows, i, acc) matches Ok(c) ==> {
            &&& c.rows == rows.filter(no_condition(cx, fs, filter))
            &&& c.count + c.rows.len() == rows.len()
        },
    decreases rows.len() - i,
{
    reveal(Seq::filter);
    if i < rows.len() {
        let next = rows.take(i + 1);
        assert(next.drop_last() =~= rows.take(i));
        assert(next.last() == rows[i]);
        match eval::expr_value(cx, Env::Frame(&fs, &rows[i], &Env::Empty), None, filter) {
            Err(_) => {},
            Ok(d) => {
                assert(condition(cx, Env::Empty, fs, filter)(rows[i]) == datum::holds(d));
                let more = if datum::holds(d) {
                    Changed { rows: acc.rows, count: dml::next_count(acc.count), left: acc.left }
                } else {
                    Changed { rows: acc.rows.push(rows[i]), count: acc.count, left: acc.left }
                };
                assert(more.rows == next.filter(no_condition(cx, fs, filter)));
                lemma_left_from(cx, fs, filter, rows, i + 1, more);
            },
        }
    } else {
        assert(rows.take(i) =~= rows);
    }
}

/// DELETE removes exactly the rows of which its condition is true and counts them;
/// the others stay as they are, in their order.
pub proof fn law_deletion(cx: CxModel, t: TableModel, filter: Expr)
    requires
        t.rows.len() <= u64::MAX,
    ensures
        dml::deleted(cx, t, filter) matches Ok(c) ==> {
            &&& c.rows == t.rows.filter(
                no_condition(cx, fields::table_fields(t.columns, t.name), filter),
            )
            &&& c.count + c.rows.len() == t.rows.len()
        },
{
    reveal(Seq::filter);
    assert(t.rows.take(0) =~= Seq::<Tuple>::empty());
    lemma_left_from(
        cx,
        fields::table_fields(t.columns, t.name),
        filter,
        t.rows,
        0,
        Changed { rows: Seq::empty(), count: 0, left: cx.db.draws },
    );
}

/// What an update makes of a row.
pub open spec fn is_update_of(
    cx: CxModel,
    fs: Fields,
    cs: Columns,
    assigns: Assigns,
    filter: Expr,
    before: Tuple,
    after: Tuple,
) -> bool {
    if condition(cx, Env::Empty, fs, filter)(before) {
        exists|ds: Draws| #[trigger]
            dml::assigned(
                cx,
                Env::Frame(&fs, &before, &Env::Empty),
                cs,
                assigns,
                before,
                ds,
            ) matches Ok(c) && c.row == after
    } else {
        after == before
    }
}

proof fn lemma_updated_from(
    cx: CxModel,
    fs: Fields,
    cs: Columns,
    assigns: Assigns,
    filter: Expr,
    rows: Seq<Tuple>,
    i: int,
    acc: Changed,
)
    requires
        0 <= i <= rows.len(),
        acc.rows.len() == i,
        forall|k: int|
            0 <= k < i ==> is_update_of(
                cx,
                fs,
                cs,
                assigns,
                filter,
                rows[k],
                #[trigger] acc.rows[k],
            ),
    ensures
        dml::updated_from(cx, fs, cs, assigns, filter, rows, i, acc) matches Ok(c) ==> {
            &&& c.rows.len() == rows.len()
            &&& forall|k: int|
                0 <= k < rows.len() ==> is_update_of(
                    cx,
                    fs,
                    cs,
                    assigns,
                    filter,
                    rows[k],
                    #[trigger] c.rows[k],
                )
        },
    decreases rows.len() - i,
{
    if i < rows.len() {
        match eval::expr_value(cx, Env::Frame(&fs, &rows[i], &Env::Empty), None, filter) {
            Err(_) => {},
            Ok(d) => {
                assert(condition(cx, Env::Empty, fs, filter)(rows[i]) == datum::holds(d));
                if datum::holds(d) {
                    match dml::assigned(
                        cx,
                        Env::Frame(&fs, &rows[i], &Env::Empty),
                        cs,
                        assigns,
                        rows[i],
                        acc.left,
                    ) {
                        Err(_) => {},
                        Ok(c) => {
                            let more = Changed {
                                rows: acc.rows.push(c.row),
                                count: dml::next_count(acc.count),
                                left: c.left,
                            };
                            assert(is_update_of(cx, fs, cs, assigns, filter, rows[i], c.row));
                            lemma_updated_from(cx, fs, cs, assigns, filter, rows, i + 1, more);
                        },
                    }
                } else {
                    let more = Changed {
                        rows: acc.rows.push(rows[i]),
                        count: acc.count,
                        left: acc.left,
                    };
                    assert(is_update_of(cx, fs, cs, assigns, filter, rows[i], rows[i]));
                    lemma_updated_from(cx, fs, cs, assigns, filter, rows, i + 1, more);
                }
            },
        }
    }
}

/// UPDATE changes the rows of which its condition is true as its assignments say,
/// with values that are all taken from the table before it. The others stay, and
/// every row keeps its place.
pub proof fn law_update(cx: CxModel, t: TableModel, assigns: Assigns, filter: Expr)
    ensures
        dml::updated(cx, t, assigns, filter) matches Ok(c) ==> {
            &&& c.rows.len() == t.rows.len()
            &&& forall|k: int|
                0 <= k < t.rows.len() ==> is_update_of(
                    cx,
                    fields::table_fields(t.columns, t.name),
                    t.columns,
                    assigns,
                    filter,
                    t.rows[k],
                    #[trigger] c.rows[k],
                )
        },
{
    if dml::updated(cx, t, assigns, filter) is Ok {
        let fs = fields::table_fields(t.columns, t.name);
        let start = Changed { rows: Seq::empty(), count: 0, left: cx.db.draws };
        lemma_updated_from(cx, fs, t.columns, assigns, filter, t.rows, 0, start);
        let made = dml::updated_from(cx, fs, t.columns, assigns, filter, t.rows, 0, start)->Ok_0;
        dml::law_inserted_rows(t.columns, Seq::empty(), made.rows, 0);
        assert(Seq::<Tuple>::empty() + made.rows.skip(0) =~= made.rows);
    }
}

/// A value that is drawn from a sequence is one more than the one that was drawn from it
/// before, the first is one, and no other sequence is drawn from.
pub proof fn law_draw(cx: CxModel, n: Name, ds: Draws)
    ensures
        dml::drawn(cx, n, ds) matches Ok(g) ==> {
            &&& dml::sequence_named(cx, n) matches Some(s)
            &&& g.value == Datum::Big((catalog::last_drawn(ds, s) + 1) as i64)
            &&& catalog::last_drawn(g.left, s) == catalog::last_drawn(ds, s) + 1
            &&& forall|other: Sequence|
                other != s ==> #[trigger] catalog::last_drawn(g.left, other)
                    == catalog::last_drawn(ds, other)
        },
        forall|s: Sequence| #[trigger] catalog::last_drawn(Draws::Nil, s) == 0,
{
    if let Some(s) = dml::sequence_named(cx, n) {
        assert forall|other: Sequence| other != s implies catalog::last_drawn(
            catalog::without_drawn(ds, s),
            other,
        ) == catalog::last_drawn(ds, other) by {
            catalog::lemma_without_drawn(ds, s, other);
        }
    }
}

/// An assignment to a column changes that column alone. A row without the column
/// stays as it is.
pub proof fn law_assignment(cs: Columns, row: Tuple, name: usize, d: Datum, other: usize)
    ensures
        other != name ==> dml::cell_named(cs, dml::with_named(cs, row, name, d), other)
            == dml::cell_named(cs, row, other),
        dml::cell_named(cs, dml::with_named(cs, row, name, d), name) == d || dml::with_named(
            cs,
            row,
            name,
            d,
        ) == row,
        datum::tuple_len(dml::with_named(cs, row, name, d)) == datum::tuple_len(row),
    decreases cs,
{
    match (cs, row) {
        (Columns::Cons(_, more), Tuple::Cons(_, rest)) => {
            law_assignment(*more, *rest, name, d, other);
        },
        _ => {},
    }
}

/// `SELECT * FROM n WHERE e`.
pub open spec fn select_star(n: Name, e: Expr) -> Select {
    Select {
        distinct: Distinct::No,
        items: Items::Cons(Item::Star, Box::new(Items::Nil)),
        source: Source::Table(n, None),
        filter: e,
        group: Exprs::Nil,
        has_having: false,
        having: Expr::Lit(Datum::Bool(true)),
        orders: Orders::Nil,
    }
}

proof fn lemma_visible(cs: Columns, q: usize, row: Tuple)
    requires
        validity::row_fits(cs, row),
    ensures
        fields::visible(fields::table_fields(cs, q), row) == row,
    decreases cs,
{
    match (cs, row) {
        (Columns::Cons(_, more), Tuple::Cons(_, rest)) => {
            lemma_visible(*more, q, *rest);
        },
        _ => {},
    }
}

proof fn lemma_append_nil(a: Tuple)
    ensures
        datum::tuple_append(a, Tuple::Nil) == a,
    decreases a,
{
    if let Tuple::Cons(_, rest) = a {
        lemma_append_nil(*rest);
    }
}

proof fn lemma_star_output(
    cx: CxModel,
    env: Env,
    cs: Columns,
    outs: Fields,
    n: Name,
    e: Expr,
    row: Tuple,
)
    requires
        validity::row_fits(cs, row),
    ensures
        eval::block_output(
            cx,
            Env::Frame(&fields::table_fields(cs, n.name), &row, &env),
            None,
            outs,
            select_star(n, e),
        ) == Ok::<Keyed, Fault>(Keyed { on: Tuple::Nil, keys: Tuple::Nil, out: row }),
{
    let fs = fields::table_fields(cs, n.name);
    let here = Env::Frame(&fs, &row, &env);
    let none = Items::Nil;
    lemma_visible(cs, n.name, row);
    lemma_append_nil(row);
    assert(eval::item_value(cx, here, None, Item::Star) == Ok::<Tuple, Fault>(row));
    assert(eval::items_value(cx, here, None, none) == Ok::<Tuple, Fault>(Tuple::Nil));
    assert(eval::items_value(cx, here, None, select_star(n, e).items) == Ok::<Tuple, Fault>(row));
    assert(eval::order_keys(cx, here, None, outs, row, Orders::Nil) == Ok::<Tuple, Fault>(
        Tuple::Nil,
    ));
}

proof fn lemma_star_outputs(
    cx: CxModel,
    env: Env,
    cs: Columns,
    outs: Fields,
    n: Name,
    e: Expr,
    rows: Seq<Tuple>,
    i: int,
    acc: Seq<Keyed>,
)
    requires
        0 <= i <= rows.len(),
        forall|k: int| 0 <= k < rows.len() ==> validity::row_fits(cs, #[trigger] rows[k]),
        acc.len() == i,
        forall|k: int|
            0 <= k < i ==> #[trigger] acc[k] == (Keyed {
                on: Tuple::Nil,
                keys: Tuple::Nil,
                out: rows[k],
            }),
    ensures
        match eval::row_outputs(
            cx,
            env,
            fields::table_fields(cs, n.name),
            None,
            outs,
            select_star(n, e),
            rows,
            i,
            acc,
        ) {
            Ok(ks) => ks.len() == rows.len() && forall|k: int|
                0 <= k < rows.len() ==> #[trigger] ks[k] == (Keyed {
                    on: Tuple::Nil,
                    keys: Tuple::Nil,
                    out: rows[k],
                }),
            Err(_) => false,
        },
    decreases rows.len() - i,
{
    if i < rows.len() {
        lemma_star_output(cx, env, cs, outs, n, e, rows[i]);
        let next = Keyed { on: Tuple::Nil, keys: Tuple::Nil, out: rows[i] };
        lemma_star_outputs(cx, env, cs, outs, n, e, rows, i + 1, acc.push(next));
    }
}

proof fn lemma_sorted_by_nothing(t: Seq<Seq<char>>, rows: Seq<Keyed>)
    ensures
        relation::sorted(t, Orders::Nil, rows) == rows,
    decreases rows.len(),
{
    if rows.len() > 0 {
        lemma_sorted_by_nothing(t, rows.drop_last());
        assert(rows.drop_last().push(rows.last()) =~= rows);
    } else {
        assert(rows =~= Seq::empty());
    }
}

proof fn lemma_star_source(cx: CxModel, env: Env, n: Name, e: Expr, i: usize)
    requires
        eval::named_rel(cx, n, n.name) is None,
        catalog::resolved(cx.db.tables, cx.path, n) == Some(i),
    ensures
        eval::source_rel(cx, env, select_star(n, e).source) == Ok::<RelModel, Fault>(
            eval::table_rel(cx.db.tables[i as int], n.name),
        ),
{
}

proof fn lemma_no_items(cx: CxModel, env: Env, fs: Fields)
    ensures
        analyze::items_fields(cx, env, fs, Items::Nil) == Ok::<Fields, Fault>(Fields::Nil),
{
}

proof fn lemma_star_item(cx: CxModel, env: Env, fs: Fields)
    ensures
        analyze::item_fields(cx, env, fs, Item::Star) == Ok::<Fields, Fault>(
            fields::visible_fields(fs),
        ),
{
}

proof fn lemma_star_fields(cx: CxModel, env: Env, fs: Fields, items: Items)
    requires
        items == Items::Cons(Item::Star, Box::new(Items::Nil)),
    ensures
        analyze::items_fields(cx, env, fs, items) is Ok,
{
    lemma_no_items(cx, env, fs);
    lemma_star_item(cx, env, fs);
}

proof fn lemma_star_is_plain(n: Name, e: Expr)
    ensures
        !analyze::is_grouped(select_star(n, e)),
        !analyze::windowed(select_star(n, e)),
{
    reveal_with_fuel(analyze::items_aggregate, 2);
    reveal_with_fuel(analyze::items_window, 2);
}

proof fn lemma_plain_block(cx: CxModel, env: Env, s: Select, rel: RelModel)
    requires
        eval::source_rel(cx, env, s.source) == Ok::<RelModel, Fault>(rel),
        analyze::items_fields(
            cx,
            Env::Frame(&rel.fields, &Tuple::Nil, &env),
            rel.fields,
            s.items,
        ) is Ok,
        !analyze::is_grouped(s),
        !analyze::windowed(s),
    ensures
        eval::block_rows(cx, env, s) == match eval::kept_rows(
            cx,
            env,
            rel.fields,
            s.filter,
            rel.rows,
            0,
            Seq::empty(),
        ) {
            Err(f) => Err(f),
            Ok(rows) => eval::row_outputs(
                cx,
                env,
                rel.fields,
                None,
                analyze::items_fields(
                    cx,
                    Env::Frame(&rel.fields, &Tuple::Nil, &env),
                    rel.fields,
                    s.items,
                )->Ok_0,
                s,
                rows,
                0,
                Seq::empty(),
            ),
        },
{
}

proof fn lemma_star_block(cx: CxModel, env: Env, t: TableModel, n: Name, e: Expr)
    requires
        eval::source_rel(cx, env, select_star(n, e).source) == Ok::<RelModel, Fault>(
            eval::table_rel(t, n.name),
        ),
        forall|k: int|
            0 <= k < t.rows.len() ==> validity::row_fits(t.columns, #[trigger] t.rows[k]),
    ensures
        ({
            let fs = fields::table_fields(t.columns, n.name);
            match eval::block_rows(cx, env, select_star(n, e)) {
                Ok(ks) => relation::outs(ks) == t.rows.filter(condition(cx, env, fs, e)),
                Err(_) => exists|k: int|
                    0 <= k < t.rows.len() && !has_value(cx, env, fs, e, #[trigger] t.rows[k]),
            }
        }),
{
    let s = select_star(n, e);
    let fs = fields::table_fields(t.columns, n.name);
    let here = Env::Frame(&fs, &Tuple::Nil, &env);
    lemma_star_fields(cx, here, fs, s.items);
    lemma_star_is_plain(n, e);
    lemma_plain_block(cx, env, s, eval::table_rel(t, n.name));
    law_where(cx, env, fs, e, t.rows);
    if let Ok(rows) = eval::kept_rows(cx, env, fs, e, t.rows, 0, Seq::empty()) {
        let outs = analyze::items_fields(cx, here, fs, s.items)->Ok_0;
        assert forall|k: int| 0 <= k < rows.len() implies validity::row_fits(
            t.columns,
            #[trigger] rows[k],
        ) by {
            assert(rows.contains(rows[k]));
            t.rows.lemma_filter_contains_rev(condition(cx, env, fs, e), rows[k]);
            let m = choose|m: int| 0 <= m < t.rows.len() && t.rows[m] == rows[k];
            assert(validity::row_fits(t.columns, t.rows[m]));
        }
        lemma_star_outputs(cx, env, t.columns, outs, n, e, rows, 0, Seq::empty());
        let ks = eval::row_outputs(cx, env, fs, None, outs, s, rows, 0, Seq::empty())->Ok_0;
        assert(relation::outs(ks) =~= rows);
    }
}

/// `SELECT *` from a table gives back the rows of the table of which the condition
/// is true, unchanged and in their order, and fails only if the condition has no
/// value for one of them.
pub proof fn law_select_star(cx: CxModel, env: Env, n: Name, e: Expr, i: usize)
    requires
        eval::named_rel(cx, n, n.name) is None,
        catalog::resolved(cx.db.tables, cx.path, n) == Some(i),
        forall|k: int|
            0 <= k < cx.db.tables[i as int].rows.len() ==> validity::row_fits(
                cx.db.tables[i as int].columns,
                #[trigger] cx.db.tables[i as int].rows[k],
            ),
    ensures
        ({
            let t = cx.db.tables[i as int];
            let fs = fields::table_fields(t.columns, n.name);
            match eval::query_rows(cx, env, Query::Select(Box::new(select_star(n, e)))) {
                Ok(out) => out == t.rows.filter(condition(cx, env, fs, e)),
                Err(_) => exists|k: int|
                    0 <= k < t.rows.len() && !has_value(cx, env, fs, e, #[trigger] t.rows[k]),
            }
        }),
{
    let t = cx.db.tables[i as int];
    lemma_star_source(cx, env, n, e, i);
    lemma_star_block(cx, env, t, n, e);
    if let Ok(ks) = eval::block_rows(cx, env, select_star(n, e)) {
        lemma_sorted_by_nothing(cx.symbols, ks);
    }
}

} // verus!
