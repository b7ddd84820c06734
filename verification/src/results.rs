//! Laws of the rows that queries give back: their order, pages, duplicates, and what joins,
//! groups and set operations make of them.

use vstd::prelude::*;
use crate::analyze;
use crate::analyze::CxModel;
use crate::analyze::Params;
use crate::ast::AggFn;
use crate::ast::Combine;
use crate::ast::Distinct;
use crate::ast::Expr;
use crate::ast::ExprRows;
use crate::ast::Exprs;
use crate::ast::Idents;
use crate::ast::Item;
use crate::ast::Items;
use crate::ast::JoinKind;
use crate::ast::JoinOn;
use crate::ast::Name;
use crate::ast::Orders;
use crate::ast::Over;
use crate::ast::Query;
use crate::ast::Select;
use crate::ast::Source;
use crate::ast::WindowFn;
use crate::conditions;
use crate::datum;
use crate::datum::Datum;
use crate::datum::Rank;
use crate::datum::Tuple;
use crate::eval;
use crate::eval::RelModel;
use crate::fault::Fault;
use crate::fields;
use crate::fields::Env;
use crate::fields::Field;
use crate::fields::Fields;
use crate::fields::Pairs;
use crate::meaning;
use crate::relation;
use crate::relation::Keyed;
use crate::symbols;
use crate::window;

verus! {

/// A page has as many rows as the limit allows and as there are behind the offset, and
/// they are the rows behind the offset in their order.
pub proof fn law_page(rows: Seq<Tuple>, n: u64, k: u64)
    ensures
        relation::limited(rows, Some(n), k).len() == if rows.len() <= k {
            0
        } else if rows.len() - k < n {
            rows.len() - k
        } else {
            n as int
        },
        relation::limited(rows, None, k).len() == if rows.len() <= k {
            0
        } else {
            rows.len() - k
        },
        forall|i: int|
            0 <= i < relation::limited(rows, Some(n), k).len() ==> #[trigger] relation::limited(
                rows,
                Some(n),
                k,
            )[i] == rows[k + i],
        forall|i: int|
            0 <= i < relation::limited(rows, None, k).len() ==> #[trigger] relation::limited(
                rows,
                None,
                k,
            )[i] == rows[k + i],
{
}

/// A page and what is left behind it are all the rows behind its offset, so pages one after
/// the other give all rows.
pub proof fn law_pages_join(rows: Seq<Tuple>, n: u64, k: u64)
    requires
        k + n <= u64::MAX,
    ensures
        relation::limited(rows, Some(n), k) + relation::limited(rows, None, (k + n) as u64)
            == relation::limited(rows, None, k),
        relation::limited(rows, None, 0) == rows,
{
    assert(relation::limited(rows, Some(n), k) + relation::limited(rows, None, (k + n) as u64)
        =~= relation::limited(rows, None, k));
    assert(relation::limited(rows, None, 0) =~= rows);
}

/// `LIMIT` and `OFFSET` give back a page of what the query gives back without them.
pub proof fn law_paged_query(
    cx: CxModel,
    env: Env,
    inner: Box<Query>,
    os: Box<Orders>,
    limit: Option<u64>,
    offset: u64,
)
    ensures
        match eval::query_rows(cx, env, Query::Sorted(inner, os, None, 0)) {
            Err(f) => eval::query_rows(cx, env, Query::Sorted(inner, os, limit, offset)) == Err::<
                Seq<Tuple>,
                Fault,
            >(f),
            Ok(all) => eval::query_rows(
                cx,
                env,
                Query::Sorted(inner, os, limit, offset),
            ) matches Ok(page) && {
                &&& page.len() == if all.len() <= offset {
                    0
                } else {
                    match limit {
                        None => all.len() - offset,
                        Some(n) => if all.len() - offset < n {
                            all.len() - offset
                        } else {
                            n as int
                        },
                    }
                }
                &&& forall|i: int| 0 <= i < page.len() ==> #[trigger] page[i] == all[offset + i]
            },
        },
{
    if let Ok(all) = eval::query_rows(cx, env, Query::Sorted(inner, os, None, 0)) {
        let fs = analyze::query_fields(cx, env, *inner)->Ok_0;
        let rows = eval::query_rows(cx, env, *inner)->Ok_0;
        let whole = relation::outs(
            relation::sorted(cx.symbols, *os, eval::keyed_outputs(fs, *os, rows)),
        );
        assert(relation::limited(whole, None, 0) =~= whole);
        if let Some(n) = limit {
            law_page(whole, n, offset);
        } else {
            law_page(whole, 0, offset);
        }
    }
}

/// Whether two values can be put in an order: one is null, or both are numbers, texts or
/// truth values.
pub open spec fn are_alike(a: Datum, b: Datum) -> bool {
    ||| a is Null || b is Null
    ||| datum::is_number(a) && datum::is_number(b)
    ||| a is Text && b is Text
    ||| a is Bool && b is Bool
}

/// Whether a value stands before another of its kind.
pub open spec fn value_before(t: Seq<Seq<char>>, a: Datum, b: Datum) -> bool {
    match (a, b) {
        (Datum::Bool(x), Datum::Bool(y)) => !x && y,
        (Datum::Text(x), Datum::Text(y)) => conditions::comes_before(
            symbols::text_at(t, x),
            symbols::text_at(t, y),
        ),
        _ => datum::is_number(a) && datum::is_number(b) && datum::as_number(a) < datum::as_number(
            b,
        ),
    }
}

/// Whether a sort key tells two values apart and puts the first one ahead.
pub open spec fn key_before(
    t: Seq<Seq<char>>,
    desc: bool,
    nulls_first: bool,
    a: Datum,
    b: Datum,
) -> bool {
    if a is Null && b is Null {
        false
    } else if a is Null {
        nulls_first
    } else if b is Null {
        !nulls_first
    } else if desc {
        value_before(t, b, a)
    } else {
        value_before(t, a, b)
    }
}

/// Whether a sort key does not tell two values apart.
pub open spec fn key_ties(t: Seq<Seq<char>>, a: Datum, b: Datum) -> bool {
    (a is Null && b is Null) || conditions::same_value(t, a, b)
}

/// Whether the sort key at place `k` puts great values first.
pub open spec fn descends(os: Orders, k: int) -> bool
    decreases os,
{
    match os {
        Orders::Nil => false,
        Orders::Cons(_, desc, _, rest) => if k == 0 {
            desc
        } else {
            descends(*rest, k - 1)
        },
    }
}

/// Whether the sort key at place `k` puts nulls first.
pub open spec fn nulls_lead(os: Orders, k: int) -> bool
    decreases os,
{
    match os {
        Orders::Nil => false,
        Orders::Cons(_, _, first, rest) => if k == 0 {
            first
        } else {
            nulls_lead(*rest, k - 1)
        },
    }
}

/// Whether the sort keys up to place `k` do not tell two rows apart, and the one there puts
/// the first row ahead.
pub open spec fn leads_at(t: Seq<Seq<char>>, os: Orders, a: Tuple, b: Tuple, k: int) -> bool {
    &&& 0 <= k < relation::orders_len(os)
    &&& forall|j: int|
        #![trigger datum::cell(a, j as nat)]
        0 <= j < k ==> key_ties(t, datum::cell(a, j as nat), datum::cell(b, j as nat))
    &&& key_before(
        t,
        descends(os, k),
        nulls_lead(os, k),
        datum::cell(a, k as nat),
        datum::cell(b, k as nat),
    )
}

proof fn lemma_rank_key(t: Seq<Seq<char>>, desc: bool, first: bool, a: Datum, b: Datum)
    requires
        are_alike(a, b),
    ensures
        relation::rank_key(t, desc, first, a, b) is Less <==> key_before(t, desc, first, a, b),
        relation::rank_key(t, desc, first, a, b) is Same <==> key_ties(t, a, b),
        !(key_before(t, desc, first, a, b) && key_ties(t, a, b)),
{
    if let (Datum::Text(x), Datum::Text(y)) = (a, b) {
        conditions::lemma_rank_texts(symbols::text_at(t, x), symbols::text_at(t, y));
        conditions::lemma_rank_texts(symbols::text_at(t, y), symbols::text_at(t, x));
        datum::law_rank_total(t, a, b);
    }
}

/// Two rows of sort keys are in the order of the first key that tells them apart: smaller
/// values come first, or greater ones if the key is descending, and nulls before or behind
/// all values as the key says. Rows that no key tells apart rank the same.
pub proof fn law_order_of_keys(t: Seq<Seq<char>>, os: Orders, a: Tuple, b: Tuple)
    requires
        datum::tuple_len(a) == relation::orders_len(os),
        datum::tuple_len(b) == relation::orders_len(os),
        forall|k: int|
            #![trigger datum::cell(a, k as nat)]
            0 <= k < relation::orders_len(os) ==> are_alike(
                datum::cell(a, k as nat),
                datum::cell(b, k as nat),
            ),
    ensures
        relation::rank_keys(t, os, a, b) is Less <==> exists|k: int|
            #[trigger] leads_at(t, os, a, b, k),
        relation::rank_keys(t, os, a, b) is Same <==> forall|k: int|
            #![trigger datum::cell(a, k as nat)]
            0 <= k < relation::orders_len(os) ==> key_ties(
                t,
                datum::cell(a, k as nat),
                datum::cell(b, k as nat),
            ),
    decreases os,
{
    if let (Orders::Cons(e, desc, first, more), Tuple::Cons(d, rest), Tuple::Cons(f, others)) = (
        os,
        a,
        b,
    ) {
        assert(datum::cell(a, 0int as nat) == d);
        assert(datum::cell(b, 0int as nat) == f);
        lemma_rank_key(t, desc, first, d, f);
        assert forall|k: int| 0 <= k < relation::orders_len(*more) implies are_alike(
            #[trigger] datum::cell(*rest, k as nat),
            datum::cell(*others, k as nat),
        ) by {
            assert(datum::cell(a, (k + 1) as nat) == datum::cell(*rest, k as nat));
            assert(datum::cell(b, (k + 1) as nat) == datum::cell(*others, k as nat));
        }
        law_order_of_keys(t, *more, *rest, *others);
        let tie = key_ties(t, d, f);
        assert forall|k: int| leads_at(t, os, a, b, k) implies (k == 0 && key_before(
            t,
            desc,
            first,
            d,
            f,
        )) || (tie && leads_at(t, *more, *rest, *others, k - 1)) by {
            if k > 0 {
                assert(datum::cell(a, 0int as nat) == d);
                assert(datum::cell(a, k as nat) == datum::cell(*rest, (k - 1) as nat));
                assert(datum::cell(b, k as nat) == datum::cell(*others, (k - 1) as nat));
                assert forall|j: int| 0 <= j < k - 1 implies key_ties(
                    t,
                    #[trigger] datum::cell(*rest, j as nat),
                    datum::cell(*others, j as nat),
                ) by {
                    assert(datum::cell(a, (j + 1) as nat) == datum::cell(*rest, j as nat));
                    assert(datum::cell(b, (j + 1) as nat) == datum::cell(*others, j as nat));
                }
            }
        }
        if key_before(t, desc, first, d, f) {
            assert(leads_at(t, os, a, b, 0));
        }
        if tie && exists|k: int| #[trigger] leads_at(t, *more, *rest, *others, k) {
            let k = choose|k: int| #[trigger] leads_at(t, *more, *rest, *others, k);
            assert(datum::cell(a, (k + 1) as nat) == datum::cell(*rest, k as nat));
            assert(datum::cell(b, (k + 1) as nat) == datum::cell(*others, k as nat));
            assert forall|j: int| 0 <= j < k + 1 implies key_ties(
                t,
                #[trigger] datum::cell(a, j as nat),
                datum::cell(b, j as nat),
            ) by {
                if j > 0 {
                    assert(datum::cell(a, j as nat) == datum::cell(*rest, (j - 1) as nat));
                    assert(datum::cell(b, j as nat) == datum::cell(*others, (j - 1) as nat));
                }
            }
            assert(leads_at(t, os, a, b, k + 1));
        }
        if relation::rank_keys(t, os, a, b) is Same {
            assert forall|k: int| 0 <= k < relation::orders_len(os) implies key_ties(
                t,
                #[trigger] datum::cell(a, k as nat),
                datum::cell(b, k as nat),
            ) by {
                if k > 0 {
                    assert(datum::cell(a, k as nat) == datum::cell(*rest, (k - 1) as nat));
                    assert(datum::cell(b, k as nat) == datum::cell(*others, (k - 1) as nat));
                }
            }
        }
        if forall|k: int|
            #![trigger datum::cell(a, k as nat)]
            0 <= k < relation::orders_len(os) ==> key_ties(
                t,
                datum::cell(a, k as nat),
                datum::cell(b, k as nat),
            ) {
            assert(key_ties(t, datum::cell(a, 0int as nat), datum::cell(b, 0int as nat)));
            assert forall|k: int| 0 <= k < relation::orders_len(*more) implies key_ties(
                t,
                #[trigger] datum::cell(*rest, k as nat),
                datum::cell(*others, k as nat),
            ) by {
                assert(datum::cell(a, (k + 1) as nat) == datum::cell(*rest, k as nat));
                assert(datum::cell(b, (k + 1) as nat) == datum::cell(*others, k as nat));
            }
        }
    }
}

/// The expression of the sort key at place `k`.
pub open spec fn order_at(os: Orders, k: int) -> Expr
    decreases os,
{
    match os {
        Orders::Nil => Expr::Default,
        Orders::Cons(e, _, _, rest) => if k == 0 {
            *e
        } else {
            order_at(*rest, k - 1)
        },
    }
}

proof fn lemma_output_keys(fs: Fields, os: Orders, row: Tuple, k: int)
    ensures
        datum::tuple_len(eval::output_keys(fs, os, row)) == relation::orders_len(os),
        0 <= k < relation::orders_len(os) ==> datum::cell(
            eval::output_keys(fs, os, row),
            k as nat,
        ) == match analyze::output_place(fs, order_at(os, k)) {
            Some(Some(i)) => datum::cell(row, i as nat),
            _ => Datum::Null,
        },
    decreases os,
{
    if let Orders::Cons(_, _, _, rest) = os {
        lemma_output_keys(fs, *rest, row, k - 1);
    }
}

/// A query that is sorted gives back the rows that it has otherwise, each as often, and no
/// row behind one that the sort keys put behind it. A key that names a column of the result
/// has the value of the row in it.
pub proof fn law_ordered_query(
    cx: CxModel,
    env: Env,
    inner: Box<Query>,
    os: Box<Orders>,
    rows: Seq<Tuple>,
    fs: Fields,
)
    requires
        eval::query_rows(cx, env, *inner) == Ok::<Seq<Tuple>, Fault>(rows),
        analyze::query_fields(cx, env, *inner) == Ok::<Fields, Fault>(fs),
    ensures
        eval::query_rows(cx, env, Query::Sorted(inner, os, None, 0)) matches Ok(out) && {
            &&& out.to_multiset() == rows.to_multiset()
            &&& forall|i: int, j: int|
                0 <= i < j < out.len() ==> !(relation::rank_keys(
                    cx.symbols,
                    *os,
                    eval::output_keys(fs, *os, #[trigger] out[j]),
                    eval::output_keys(fs, *os, #[trigger] out[i]),
                ) is Less)
        },
        forall|row: Tuple, k: int|
            0 <= k < relation::orders_len(*os) ==> #[trigger] datum::cell(
                eval::output_keys(fs, *os, row),
                k as nat,
            ) == match analyze::output_place(fs, order_at(*os, k)) {
                Some(Some(i)) => datum::cell(row, i as nat),
                _ => Datum::Null,
            },
{
    let ks = eval::keyed_outputs(fs, *os, rows);
    let done = relation::sorted(cx.symbols, *os, ks);
    let out = relation::outs(done);
    assert(relation::limited(out, None, 0) =~= out);
    assert forall|i: int| 0 <= i < ks.len() implies datum::tuple_len((#[trigger] ks[i]).keys)
        == relation::orders_len(*os) by {
        lemma_output_keys(fs, *os, rows[i], 0);
    }
    relation::law_sorted(cx.symbols, *os, ks);
    lemma_outs_multiset(done, ks);
    assert(relation::outs(ks) =~= rows);
    assert forall|i: int, j: int| 0 <= i < j < out.len() implies !(relation::rank_keys(
        cx.symbols,
        *os,
        eval::output_keys(fs, *os, #[trigger] out[j]),
        eval::output_keys(fs, *os, #[trigger] out[i]),
    ) is Less) by {
        lemma_sorted_origin(cx.symbols, *os, ks, i);
        lemma_sorted_origin(cx.symbols, *os, ks, j);
        let a = choose|a: int| 0 <= a < ks.len() && ks[a] == done[i];
        let b = choose|b: int| 0 <= b < ks.len() && ks[b] == done[j];
        assert(done[i].keys == eval::output_keys(fs, *os, out[i]));
        assert(done[j].keys == eval::output_keys(fs, *os, out[j]));
        assert(relation::rank_keys(cx.symbols, *os, done[i].keys, done[j].keys) != Rank::More);
        relation::lemma_rank_keys_swap(cx.symbols, *os, done[i].keys, done[j].keys);
    }
    assert forall|row: Tuple, k: int|
        0 <= k < relation::orders_len(*os) implies #[trigger] datum::cell(
        eval::output_keys(fs, *os, row),
        k as nat,
    ) == match analyze::output_place(fs, order_at(*os, k)) {
        Some(Some(i)) => datum::cell(row, i as nat),
        _ => Datum::Null,
    } by {
        lemma_output_keys(fs, *os, row, k);
    }
}

proof fn lemma_sorted_origin(t: Seq<Seq<char>>, os: Orders, ks: Seq<Keyed>, i: int)
    requires
        0 <= i < relation::sorted(t, os, ks).len(),
    ensures
        ks.contains(relation::sorted(t, os, ks)[i]),
{
    let done = relation::sorted(t, os, ks);
    relation::lemma_sorted_members(t, os, ks);
    done.to_multiset_ensures();
    ks.to_multiset_ensures();
    assert(done.contains(done[i]));
    assert(done.to_multiset().count(done[i]) > 0);
}

proof fn lemma_outs_multiset(a: Seq<Keyed>, b: Seq<Keyed>)
    requires
        a.to_multiset() == b.to_multiset(),
    ensures
        relation::outs(a).to_multiset() == relation::outs(b).to_multiset(),
    decreases a.len(),
{
    broadcast use vstd::seq_lib::group_to_multiset_ensures;

    a.to_multiset_ensures();
    b.to_multiset_ensures();
    if a.len() > 0 {
        let x = a.last();
        let rest = a.drop_last();
        assert(a =~= rest.push(x));
        assert(b.to_multiset().count(x) > 0);
        assert(b.contains(x));
        let j = choose|j: int| 0 <= j < b.len() && b[j] == x;
        let less = b.remove(j);
        assert(rest.to_multiset() =~= a.to_multiset().remove(x));
        assert(less.to_multiset() =~= b.to_multiset().remove(x));
        lemma_outs_multiset(rest, less);
        assert(relation::outs(a) =~= relation::outs(rest).push(x.out));
        assert(relation::outs(less) =~= relation::outs(b).remove(j));
        assert(relation::outs(b)[j] == x.out);
        assert(relation::outs(b).contains(x.out));
        assert(relation::outs(a).to_multiset() =~= relation::outs(b).to_multiset());
    } else {
        assert(a =~= b);
    }
}

/// A query block that keeps duplicates.
pub open spec fn keeping_duplicates(s: Select) -> Select {
    Select { distinct: Distinct::No, ..s }
}

/// Whether results are those of other ones, with the same keys in the same order, and
/// duplicates are told by whole rows.
spec fn echoes(ks: Seq<Keyed>, js: Seq<Keyed>) -> bool {
    &&& ks.len() == js.len()
    &&& forall|i: int|
        0 <= i < ks.len() ==> (#[trigger] ks[i]).out == js[i].out && ks[i].keys == js[i].keys
            && ks[i].on == ks[i].out
}

proof fn lemma_echo_output(
    cx: CxModel,
    env: Env,
    group: Option<Seq<Tuple>>,
    outs: Fields,
    s: Select,
)
    requires
        s.distinct is Rows,
    ensures
        match (
            eval::block_output(cx, env, group, outs, s),
            eval::block_output(cx, env, group, outs, keeping_duplicates(s)),
        ) {
            (Ok(k), Ok(j)) => k.out == j.out && k.keys == j.keys && k.on == k.out,
            (Err(f), Err(g)) => f == g,
            _ => false,
        },
{
    let p = keeping_duplicates(s);
    assert(eval::items_value(cx, env, group, s.items) == eval::items_value(
        cx,
        env,
        group,
        p.items,
    ));
    if let Ok(cells) = eval::items_value(cx, env, group, s.items) {
        assert(eval::distinct_value(cx, env, group, cells, s.distinct) == Ok::<Tuple, Fault>(
            cells,
        ));
        assert(eval::distinct_value(cx, env, group, cells, p.distinct) is Ok);
    }
}

proof fn lemma_echo_rows(
    cx: CxModel,
    env: Env,
    fs: Fields,
    group: Option<Seq<Tuple>>,
    outs: Fields,
    s: Select,
    rows: Seq<Tuple>,
    i: int,
    ks: Seq<Keyed>,
    js: Seq<Keyed>,
)
    requires
        s.distinct is Rows,
        0 <= i <= rows.len(),
        echoes(ks, js),
    ensures
        match (
            eval::row_outputs(cx, env, fs, group, outs, s, rows, i, ks),
            eval::row_outputs(cx, env, fs, group, outs, keeping_duplicates(s), rows, i, js),
        ) {
            (Ok(a), Ok(b)) => echoes(a, b),
            (Err(f), Err(g)) => f == g,
            _ => false,
        },
    decreases rows.len() - i,
{
    if i < rows.len() {
        let here = Env::Frame(&fs, &rows[i], &env);
        lemma_echo_output(cx, here, group, outs, s);
        if let Ok(k) = eval::block_output(cx, here, group, outs, s) {
            let j = eval::block_output(cx, here, group, outs, keeping_duplicates(s))->Ok_0;
            lemma_echo_rows(
                cx,
                env,
                fs,
                group,
                outs,
                s,
                rows,
                i + 1,
                ks.push(k),
                js.push(j),
            );
        }
    }
}

proof fn lemma_echo_groups(
    cx: CxModel,
    env: Env,
    fs: Fields,
    outs: Fields,
    s: Select,
    all: Seq<Keyed>,
    heads: Seq<Keyed>,
    i: int,
    ks: Seq<Keyed>,
    js: Seq<Keyed>,
)
    requires
        s.distinct is Rows,
        0 <= i <= heads.len(),
        echoes(ks, js),
    ensures
        match (
            eval::group_outputs(cx, env, fs, outs, s, all, heads, i, ks),
            eval::group_outputs(cx, env, fs, outs, keeping_duplicates(s), all, heads, i, js),
        ) {
            (Ok(a), Ok(b)) => echoes(a, b),
            (Err(f), Err(g)) => f == g,
            _ => false,
        },
    decreases heads.len() - i,
{
    if i < heads.len() {
        let rows = eval::group_members(all, heads[i].on);
        let head = eval::group_head(fs, rows);
        let here = Env::Frame(&fs, &head, &env);
        lemma_echo_output(cx, here, Some(rows), outs, s);
        if let Ok(d) = eval::expr_value(cx, here, Some(rows), s.having) {
            if datum::holds(d) {
                if let Ok(k) = eval::block_output(cx, here, Some(rows), outs, s) {
                    let j = eval::block_output(
                        cx,
                        here,
                        Some(rows),
                        outs,
                        keeping_duplicates(s),
                    )->Ok_0;
                    lemma_echo_groups(
                        cx,
                        env,
                        fs,
                        outs,
                        s,
                        all,
                        heads,
                        i + 1,
                        ks.push(k),
                        js.push(j),
                    );
                }
            } else {
                lemma_echo_groups(cx, env, fs, outs, s, all, heads, i + 1, ks, js);
            }
        }
    }
}

proof fn lemma_echo_block(cx: CxModel, env: Env, s: Select)
    requires
        s.distinct is Rows,
    ensures
        match (
            eval::block_rows(cx, env, s),
            eval::block_rows(cx, env, keeping_duplicates(s)),
        ) {
            (Ok(a), Ok(b)) => echoes(a, b),
            (Err(f), Err(g)) => f == g,
            _ => false,
        },
{
    let p = keeping_duplicates(s);
    assert(analyze::needs_rows(s) == analyze::needs_rows(p));
    if let Ok(rel) = eval::source_rel(cx, env, s.source) {
        assert(eval::filtered(cx, env, s, rel) == eval::filtered(cx, env, p, rel));
        if let Ok(rows) = eval::filtered(cx, env, s, rel) {
            let here = Env::Frame(&rel.fields, &Tuple::Nil, &env);
            if let Ok(outs) = analyze::items_fields(cx, here, rel.fields, s.items) {
                let none = Seq::<Keyed>::empty();
                if analyze::is_grouped(s) {
                    let keyed = eval::key_rows(cx, env, rel.fields, s.group, rows, 0, none);
                    if let Ok(ks) = keyed {
                        lemma_echo_groups(
                            cx,
                            env,
                            rel.fields,
                            outs,
                            s,
                            ks,
                            eval::group_heads(s, ks),
                            0,
                            none,
                            none,
                        );
                    }
                } else if analyze::windowed(s) {
                    let all = window::numbered(rows);
                    lemma_echo_rows(
                        cx,
                        env,
                        rel.fields,
                        Some(all),
                        outs,
                        s,
                        all,
                        0,
                        none,
                        none,
                    );
                } else {
                    lemma_echo_rows(cx, env, rel.fields, None, outs, s, rows, 0, none, none);
                }
            }
        }
    }
}

proof fn lemma_echo_insert(
    t: Seq<Seq<char>>,
    os: Orders,
    ks: Seq<Keyed>,
    js: Seq<Keyed>,
    k: Keyed,
    j: Keyed,
)
    requires
        echoes(ks, js),
        k.out == j.out,
        k.keys == j.keys,
        k.on == k.out,
    ensures
        echoes(relation::insert_sorted(t, os, ks, k), relation::insert_sorted(t, os, js, j)),
    decreases ks.len(),
{
    if ks.len() > 0 {
        assert(ks[ks.len() - 1].keys == js[js.len() - 1].keys);
        if relation::rank_keys(t, os, ks.last().keys, k.keys) == Rank::More {
            assert(echoes(ks.drop_last(), js.drop_last())) by {
                assert forall|i: int| 0 <= i < ks.drop_last().len() implies (
                #[trigger] ks.drop_last()[i]).out == js.drop_last()[i].out && ks.drop_last()[i].keys
                    == js.drop_last()[i].keys && ks.drop_last()[i].on == ks.drop_last()[i].out by {
                    assert(ks[i].out == js[i].out);
                }
            }
            lemma_echo_insert(t, os, ks.drop_last(), js.drop_last(), k, j);
        }
    }
}

proof fn lemma_echo_sorted(t: Seq<Seq<char>>, os: Orders, ks: Seq<Keyed>, js: Seq<Keyed>)
    requires
        echoes(ks, js),
    ensures
        echoes(relation::sorted(t, os, ks), relation::sorted(t, os, js)),
    decreases ks.len(),
{
    if ks.len() > 0 {
        assert(echoes(ks.drop_last(), js.drop_last())) by {
            assert forall|i: int| 0 <= i < ks.drop_last().len() implies (
            #[trigger] ks.drop_last()[i]).out == js.drop_last()[i].out && ks.drop_last()[i].keys
                == js.drop_last()[i].keys && ks.drop_last()[i].on == ks.drop_last()[i].out by {
                assert(ks[i].out == js[i].out);
            }
        }
        lemma_echo_sorted(t, os, ks.drop_last(), js.drop_last());
        assert(ks[ks.len() - 1].out == js[js.len() - 1].out);
        lemma_echo_insert(
            t,
            os,
            relation::sorted(t, os, ks.drop_last()),
            relation::sorted(t, os, js.drop_last()),
            ks.last(),
            js.last(),
        );
    }
}

/// Whether the row at place `i` is the first one with the values that tell duplicates.
pub open spec fn is_first(ks: Seq<Keyed>, i: int) -> bool {
    0 <= i < ks.len() && forall|j: int| 0 <= j < i ==> (#[trigger] ks[j]).on != ks[i].on
}

/// Dropping rows by the values that tell duplicates leaves, in their order, the first row
/// with each of those values, and no other.
pub proof fn law_first_of_each(ks: Seq<Keyed>, x: Keyed)
    ensures
        relation::distinct_on(ks).contains(x) <==> exists|i: int|
            #[trigger] is_first(ks, i) && ks[i] == x,
        forall|i: int, j: int|
            0 <= i < j < relation::distinct_on(ks).len() ==> (#[trigger] relation::distinct_on(
                ks,
            )[i]).on != (#[trigger] relation::distinct_on(ks)[j]).on,
    decreases ks.len(),
{
    if ks.len() > 0 {
        let before = ks.drop_last();
        let kept = relation::distinct_on(before);
        let y = ks.last();
        law_first_of_each(before, x);
        let seen = relation::seen_on(kept, y.on, kept.len() as int);
        assert(seen <==> exists|j: int| 0 <= j < before.len() && (#[trigger] before[j]).on == y.on)
            by {
            if seen {
                let j = choose|j: int| 0 <= j < kept.len() && (#[trigger] kept[j]).on == y.on;
                law_first_of_each(before, kept[j]);
                assert(kept.contains(kept[j]));
                let i = choose|i: int| #[trigger] is_first(before, i) && before[i] == kept[j];
                assert(before[i].on == y.on);
            }
            if exists|j: int| 0 <= j < before.len() && (#[trigger] before[j]).on == y.on {
                let j = choose|j: int| 0 <= j < before.len() && (#[trigger] before[j]).on == y.on;
                lemma_seen(before, j);
            }
        }
        assert forall|i: int| is_first(ks, i) implies (i < before.len() && is_first(before, i)) || (
        i == before.len() && !seen) by {
            if i < before.len() {
                assert forall|j: int| 0 <= j < i implies (#[trigger] before[j]).on != before[i].on by {
                    assert(ks[j].on != ks[i].on);
                }
            } else if seen {
                let j = choose|j: int| 0 <= j < before.len() && (#[trigger] before[j]).on == y.on;
                assert(ks[j].on == ks[i].on);
            }
        }
        assert forall|i: int| is_first(before, i) implies is_first(ks, i) by {
            assert forall|j: int| 0 <= j < i implies (#[trigger] ks[j]).on != ks[i].on by {
                assert(before[j].on != before[i].on);
            }
        }
        if !seen {
            let n = before.len() as int;
            assert forall|j: int| 0 <= j < n implies (#[trigger] ks[j]).on != ks[n].on by {
                assert(before[j].on == ks[j].on);
            }
            assert(is_first(ks, n));
            let all = kept.push(y);
            assert(relation::distinct_on(ks) == all);
            if kept.contains(x) {
                let i = choose|i: int| 0 <= i < kept.len() && kept[i] == x;
                assert(all[i] == x);
            }
            assert(all[kept.len() as int] == y);
            if all.contains(x) && !kept.contains(x) {
                let i = choose|i: int| 0 <= i < all.len() && all[i] == x;
                if i < kept.len() {
                    assert(kept[i] == x);
                }
                assert(x == y);
            }
            assert forall|i: int, j: int| 0 <= i < j < all.len() implies (#[trigger] all[i]).on != (
            #[trigger] all[j]).on by {
                assert(all[i] == kept[i]);
                if j < kept.len() {
                    assert(all[j] == kept[j]);
                }
            }
        }
    }
}

proof fn lemma_seen(ks: Seq<Keyed>, j: int)
    requires
        0 <= j < ks.len(),
    ensures
        relation::seen_on(
            relation::distinct_on(ks),
            ks[j].on,
            relation::distinct_on(ks).len() as int,
        ),
    decreases ks.len(),
{
    let before = ks.drop_last();
    let kept = relation::distinct_on(before);
    let all = relation::distinct_on(ks);
    if j < before.len() {
        lemma_seen(before, j);
        let i = choose|i: int| 0 <= i < kept.len() && (#[trigger] kept[i]).on == before[j].on;
        assert(all[i].on == ks[j].on);
    } else if !relation::seen_on(kept, ks.last().on, kept.len() as int) {
        assert(all[kept.len() as int].on == ks[j].on);
    }
}

/// SELECT DISTINCT gives back every row that the query block has without it, and no other,
/// each once, and fails exactly where the query block fails without it.
pub proof fn law_select_distinct(cx: CxModel, env: Env, s: Box<Select>, x: Tuple)
    requires
        s.distinct is Rows,
    ensures
        match (
            eval::query_rows(cx, env, Query::Select(s)),
            eval::query_rows(cx, env, Query::Select(Box::new(keeping_duplicates(*s)))),
        ) {
            (Ok(once), Ok(all)) => {
                &&& once.contains(x) <==> all.contains(x)
                &&& once.no_duplicates()
            },
            (Err(f), Err(g)) => f == g,
            _ => false,
        },
{
    let p = keeping_duplicates(*s);
    lemma_echo_block(cx, env, *s);
    if let Ok(ks) = eval::block_rows(cx, env, *s) {
        let js = eval::block_rows(cx, env, p)->Ok_0;
        lemma_echo_sorted(cx.symbols, s.orders, ks, js);
        let a = relation::sorted(cx.symbols, s.orders, ks);
        let b = relation::sorted(cx.symbols, s.orders, js);
        let heads = relation::distinct_on(a);
        let once = relation::outs(heads);
        let all = relation::outs(b);
        law_first_of_each(a, a[0]);
        if all.contains(x) {
            let i = choose|i: int| 0 <= i < all.len() && all[i] == x;
            assert(a[i].out == b[i].out);
            lemma_seen(a, i);
            let k = choose|k: int| 0 <= k < heads.len() && (#[trigger] heads[k]).on == a[i].on;
            law_first_of_each(a, heads[k]);
            assert(heads.contains(heads[k]));
            let m = choose|m: int| #[trigger] is_first(a, m) && a[m] == heads[k];
            assert(a[m].on == a[m].out);
            assert(once[k] == x);
        }
        if once.contains(x) {
            let k = choose|k: int| 0 <= k < once.len() && once[k] == x;
            law_first_of_each(a, heads[k]);
            assert(heads.contains(heads[k]));
            let m = choose|m: int| #[trigger] is_first(a, m) && a[m] == heads[k];
            assert(a[m].out == b[m].out);
            assert(all[m] == x);
        }
        assert forall|i: int, j: int| 0 <= i < once.len() && 0 <= j < once.len() && i
            != j implies once[i] != once[j] by {
            assert(heads[i].on != heads[j].on) by {
                if i < j {
                    assert(heads[i].on != heads[j].on);
                } else {
                    assert(heads[j].on != heads[i].on);
                }
            }
            law_first_of_each(a, heads[i]);
            law_first_of_each(a, heads[j]);
            assert(heads.contains(heads[i]) && heads.contains(heads[j]));
            let m = choose|m: int| #[trigger] is_first(a, m) && a[m] == heads[i];
            let n = choose|n: int| #[trigger] is_first(a, n) && a[n] == heads[j];
            assert(a[m].on == a[m].out && a[n].on == a[n].out);
        }
    }
}

/// SELECT DISTINCT ON gives back the first row, in the order of the query block, of those
/// with the same values, and no other.
pub proof fn law_select_distinct_on(cx: CxModel, env: Env, s: Box<Select>, x: Tuple)
    requires
        s.distinct is On,
        eval::block_rows(cx, env, *s) is Ok,
    ensures
        ({
            let ordered = relation::sorted(
                cx.symbols,
                s.orders,
                eval::block_rows(cx, env, *s)->Ok_0,
            );
            eval::query_rows(cx, env, Query::Select(s)) matches Ok(out) && (out.contains(x)
                <==> exists|i: int| #[trigger] is_first(ordered, i) && ordered[i].out == x)
        }),
{
    let ks = eval::block_rows(cx, env, *s)->Ok_0;
    let ordered = relation::sorted(cx.symbols, s.orders, ks);
    let heads = relation::distinct_on(ordered);
    let out = relation::outs(heads);
    if out.contains(x) {
        let k = choose|k: int| 0 <= k < out.len() && out[k] == x;
        law_first_of_each(ordered, heads[k]);
        assert(heads.contains(heads[k]));
    }
    if exists|i: int| #[trigger] is_first(ordered, i) && ordered[i].out == x {
        let i = choose|i: int| #[trigger] is_first(ordered, i) && ordered[i].out == x;
        law_first_of_each(ordered, ordered[i]);
        let k = choose|k: int| 0 <= k < heads.len() && heads[k] == ordered[i];
        assert(out[k] == x);
    }
}

/// The rows of a query block that keeps duplicates are its results, each as often, none
/// behind one that the sort keys put behind it.
pub proof fn law_select_ordered(cx: CxModel, env: Env, s: Box<Select>)
    requires
        s.distinct is No,
        eval::block_rows(cx, env, *s) is Ok,
    ensures
        eval::query_rows(cx, env, Query::Select(s)) matches Ok(out) && {
            let ks = eval::block_rows(cx, env, *s)->Ok_0;
            let done = relation::sorted(cx.symbols, s.orders, ks);
            &&& out.to_multiset() == relation::outs(ks).to_multiset()
            &&& out == relation::outs(done)
            &&& done.to_multiset() == ks.to_multiset()
            &&& relation::keys_fit(s.orders, ks) ==> forall|i: int, j: int|
                0 <= i < j < done.len() ==> !(relation::rank_keys(
                    cx.symbols,
                    s.orders,
                    (#[trigger] done[j]).keys,
                    (#[trigger] done[i]).keys,
                ) is Less)
        },
{
    let ks = eval::block_rows(cx, env, *s)->Ok_0;
    let done = relation::sorted(cx.symbols, s.orders, ks);
    relation::lemma_sorted_members(cx.symbols, s.orders, ks);
    lemma_outs_multiset(done, ks);
    if relation::keys_fit(s.orders, ks) {
        relation::law_sorted(cx.symbols, s.orders, ks);
        assert forall|i: int, j: int| 0 <= i < j < done.len() implies !(relation::rank_keys(
            cx.symbols,
            s.orders,
            (#[trigger] done[j]).keys,
            (#[trigger] done[i]).keys,
        ) is Less) by {
            assert(relation::rank_keys(cx.symbols, s.orders, done[i].keys, done[j].keys)
                != Rank::More);
            relation::lemma_rank_keys_swap(cx.symbols, s.orders, done[i].keys, done[j].keys);
        }
    }
}

proof fn lemma_order_keys(
    cx: CxModel,
    env: Env,
    group: Option<Seq<Tuple>>,
    fs: Fields,
    cells: Tuple,
    os: Orders,
    k: int,
)
    requires
        eval::order_keys(cx, env, group, fs, cells, os) is Ok,
    ensures
        ({
            let keys = eval::order_keys(cx, env, group, fs, cells, os)->Ok_0;
            &&& datum::tuple_len(keys) == relation::orders_len(os)
            &&& 0 <= k < relation::orders_len(os) ==> match analyze::output_place(
                fs,
                order_at(os, k),
            ) {
                Some(Some(i)) => datum::cell(keys, k as nat) == datum::cell(cells, i as nat),
                Some(None) => false,
                None => conditions::is_worth(
                    cx,
                    env,
                    group,
                    order_at(os, k),
                    datum::cell(keys, k as nat),
                ),
            }
        }),
    decreases os,
{
    if let Orders::Cons(e, _, _, rest) = os {
        lemma_order_keys(cx, env, group, fs, cells, *rest, k - 1);
        let d = eval::order_key(cx, env, group, fs, cells, *e)->Ok_0;
        let more = eval::order_keys(cx, env, group, fs, cells, *rest)->Ok_0;
        let keys = eval::order_keys(cx, env, group, fs, cells, os)->Ok_0;
        assert(keys == Tuple::Cons(d, Box::new(more)));
        assert(order_at(os, 0) == *e);
        assert(datum::cell(keys, 0) == d);
        if k > 0 {
            assert(order_at(os, k) == order_at(*rest, k - 1));
            assert(datum::cell(keys, k as nat) == datum::cell(more, (k - 1) as nat));
        }
    }
}

/// What a query block makes of a row or a group: the cells of its select list; for each
/// sort key the cell of the result that it names, or its value; and for DISTINCT ON the
/// values that tell duplicates, one for each expression.
pub proof fn law_block_output(
    cx: CxModel,
    env: Env,
    group: Option<Seq<Tuple>>,
    fs: Fields,
    s: Select,
    k: int,
)
    requires
        eval::block_output(cx, env, group, fs, s) is Ok,
    ensures
        ({
            let r = eval::block_output(cx, env, group, fs, s)->Ok_0;
            &&& eval::items_value(cx, env, group, s.items) == Ok::<Tuple, Fault>(r.out)
            &&& datum::tuple_len(r.keys) == relation::orders_len(s.orders)
            &&& 0 <= k < relation::orders_len(s.orders) ==> match analyze::output_place(
                fs,
                order_at(s.orders, k),
            ) {
                Some(Some(i)) => datum::cell(r.keys, k as nat) == datum::cell(r.out, i as nat),
                Some(None) => false,
                None => conditions::is_worth(
                    cx,
                    env,
                    group,
                    order_at(s.orders, k),
                    datum::cell(r.keys, k as nat),
                ),
            }
            &&& s.distinct is Rows ==> r.on == r.out
            &&& s.distinct matches Distinct::On(es) ==> {
                &&& datum::tuple_len(r.on) == conditions::exprs_len(*es)
                &&& 0 <= k < conditions::exprs_len(*es) ==> conditions::is_worth(
                    cx,
                    env,
                    group,
                    conditions::expr_at(*es, k),
                    datum::cell(r.on, k as nat),
                )
            }
        }),
{
    let cells = eval::items_value(cx, env, group, s.items)->Ok_0;
    assert(eval::distinct_value(cx, env, group, cells, s.distinct) is Ok);
    lemma_order_keys(cx, env, group, fs, cells, s.orders, k);
    if let Distinct::On(es) = s.distinct {
        lemma_exprs_value(cx, env, group, *es, k);
    }
}

proof fn lemma_exprs_value(cx: CxModel, env: Env, group: Option<Seq<Tuple>>, es: Exprs, k: int)
    ensures
        eval::exprs_value(cx, env, group, es) matches Ok(r) ==> {
            &&& datum::tuple_len(r) == conditions::exprs_len(es)
            &&& 0 <= k < conditions::exprs_len(es) ==> conditions::is_worth(
                cx,
                env,
                group,
                conditions::expr_at(es, k),
                datum::cell(r, k as nat),
            )
        },
    decreases es,
{
    if let Exprs::Cons(_, rest) = es {
        lemma_exprs_value(cx, env, group, *rest, k - 1);
    }
}

/// How many pairs of columns there are.
pub open spec fn pairs_len(ps: Pairs) -> nat
    decreases ps,
{
    match ps {
        Pairs::Nil => 0,
        Pairs::Cons(_, _, rest) => 1 + pairs_len(*rest),
    }
}

/// The place of the left column of the pair at place `k`.
pub open spec fn left_at(ps: Pairs, k: int) -> usize
    decreases ps,
{
    match ps {
        Pairs::Nil => 0,
        Pairs::Cons(i, _, rest) => if k == 0 {
            i
        } else {
            left_at(*rest, k - 1)
        },
    }
}

/// The place of the right column of the pair at place `k`.
pub open spec fn right_at(ps: Pairs, k: int) -> usize
    decreases ps,
{
    match ps {
        Pairs::Nil => 0,
        Pairs::Cons(_, j, rest) => if k == 0 {
            j
        } else {
            right_at(*rest, k - 1)
        },
    }
}

/// Whether a left and a right row have the same value, which is not null, in the pair of
/// columns at place `k`.
pub open spec fn agrees_at(t: Seq<Seq<char>>, ps: Pairs, l: Tuple, r: Tuple, k: int) -> bool {
    conditions::same_value(
        t,
        datum::cell(l, left_at(ps, k) as nat),
        datum::cell(r, right_at(ps, k) as nat),
    )
}

proof fn lemma_pairs_equal(t: Seq<Seq<char>>, ps: Pairs, l: Tuple, r: Tuple)
    ensures
        eval::pairs_equal(t, ps, l, r) <==> forall|k: int|
            0 <= k < pairs_len(ps) ==> #[trigger] agrees_at(t, ps, l, r, k),
    decreases ps,
{
    if let Pairs::Cons(i, j, rest) = ps {
        lemma_pairs_equal(t, *rest, l, r);
        conditions::lemma_same_value(t, datum::cell(l, i as nat), datum::cell(r, j as nat));
        assert(agrees_at(t, ps, l, r, 0) == conditions::same_value(
            t,
            datum::cell(l, i as nat),
            datum::cell(r, j as nat),
        ));
        assert forall|k: int| 0 <= k implies #[trigger] agrees_at(t, *rest, l, r, k) == agrees_at(
            t,
            ps,
            l,
            r,
            k + 1,
        ) by {
            assert(left_at(ps, k + 1) == left_at(*rest, k));
            assert(right_at(ps, k + 1) == right_at(*rest, k));
        }
        if forall|k: int| 0 <= k < pairs_len(ps) ==> #[trigger] agrees_at(t, ps, l, r, k) {
            assert forall|k: int| 0 <= k < pairs_len(*rest) implies #[trigger] agrees_at(
                t,
                *rest,
                l,
                r,
                k,
            ) by {
                assert(agrees_at(t, ps, l, r, k + 1));
            }
        }
        if agrees_at(t, ps, l, r, 0) && (forall|k: int|
            0 <= k < pairs_len(*rest) ==> #[trigger] agrees_at(t, *rest, l, r, k)) {
            assert forall|k: int| 0 <= k < pairs_len(ps) implies #[trigger] agrees_at(
                t,
                ps,
                l,
                r,
                k,
            ) by {
                if k > 0 {
                    assert(agrees_at(t, *rest, l, r, k - 1) == agrees_at(t, ps, l, r, k));
                }
            }
        }
    }
}

/// A join with USING or NATURAL keeps a pair of rows exactly if they have the same value,
/// and no null, in every one of the pairs of columns that it compares. A join with ON keeps
/// the pairs of which its condition is true, a join without a condition all pairs.
pub proof fn law_join_conditions(
    cx: CxModel,
    env: Env,
    fs: Fields,
    on: JoinOn,
    ps: Pairs,
    l: Tuple,
    r: Tuple,
)
    ensures
        on is Using || on is Natural ==> eval::pair_holds(cx, env, fs, on, ps, l, r) == Ok::<
            bool,
            Fault,
        >(
            forall|k: int|
                0 <= k < pairs_len(ps) ==> #[trigger] agrees_at(cx.symbols, ps, l, r, k),
        ),
        on is Always ==> eval::pair_holds(cx, env, fs, on, ps, l, r) == Ok::<bool, Fault>(true),
        on matches JoinOn::On(e) ==> {
            let row = fields::joined(ps, l, r);
            match eval::expr_value(cx, Env::Frame(&fs, &row, &env), None, *e) {
                Ok(d) => eval::pair_holds(cx, env, fs, on, ps, l, r) == Ok::<bool, Fault>(
                    d == Datum::Bool(true),
                ),
                Err(f) => eval::pair_holds(cx, env, fs, on, ps, l, r) == Err::<bool, Fault>(f),
            }
        },
{
    lemma_pairs_equal(cx.symbols, ps, l, r);
}

/// How many names there are.
pub open spec fn idents_len(names: Idents) -> nat
    decreases names,
{
    match names {
        Idents::Nil => 0,
        Idents::Cons(_, rest) => 1 + idents_len(*rest),
    }
}

/// The name at place `k`.
pub open spec fn ident_at(names: Idents, k: int) -> usize
    decreases names,
{
    match names {
        Idents::Nil => 0,
        Idents::Cons(n, rest) => if k == 0 {
            n
        } else {
            ident_at(*rest, k - 1)
        },
    }
}

proof fn lemma_using_pairs(l: Fields, r: Fields, names: Idents, k: int)
    requires
        fields::fields_len(l) <= usize::MAX,
        fields::fields_len(r) <= usize::MAX,
        analyze::using_pairs(l, r, names) is Ok,
    ensures
        ({
            let ps = analyze::using_pairs(l, r, names)->Ok_0;
            &&& pairs_len(ps) == idents_len(names)
            &&& 0 <= k < idents_len(names) ==> {
                &&& conditions::leads_to_place(l, None, ident_at(names, k), left_at(ps, k) as int)
                &&& conditions::leads_to_place(r, None, ident_at(names, k), right_at(ps, k) as int)
            }
        }),
    decreases names,
{
    if let Idents::Cons(n, rest) = names {
        conditions::lemma_find(l, None, n, 0);
        conditions::lemma_find(r, None, n, 0);
        lemma_using_pairs(l, r, *rest, k - 1);
    }
}

/// USING compares, for each name of its list, the left and the right column of that name.
pub proof fn law_using_columns(l: Fields, r: Fields, names: Box<Idents>, alias: Option<usize>, k: int)
    requires
        fields::fields_len(l) <= usize::MAX,
        fields::fields_len(r) <= usize::MAX,
        analyze::join_pairs(l, r, JoinOn::Using(names, alias)) is Ok,
    ensures
        ({
            let ps = analyze::join_pairs(l, r, JoinOn::Using(names, alias))->Ok_0;
            &&& pairs_len(ps) == idents_len(*names)
            &&& 0 <= k < idents_len(*names) ==> {
                &&& conditions::leads_to_place(l, None, ident_at(*names, k), left_at(ps, k) as int)
                &&& conditions::leads_to_place(
                    r,
                    None,
                    ident_at(*names, k),
                    right_at(ps, k) as int,
                )
            }
        }),
{
    lemma_using_pairs(l, r, *names, k);
}

/// Whether a relation has a visible column of a name.
pub open spec fn shows(fs: Fields, name: usize) -> bool {
    exists|i: int| #[trigger] conditions::leads_to_place(fs, None, name, i)
}

proof fn lemma_common_names(a: Fields, b: Fields, n: usize)
    requires
        fields::fields_len(b) <= usize::MAX,
    ensures
        fields::has_ident(fields::common_names(a, b), n) <==> shows(a, n) && shows(b, n),
    decreases a,
{
    if let Fields::Cons(f, rest) = a {
        lemma_common_names(*rest, b, n);
        conditions::lemma_find(b, None, f.name, 0);
        assert(shows(b, f.name) <==> fields::find(b, None, f.name) != fields::Found::Missing);
        assert(shows(a, n) <==> (f.name == n && !f.hidden) || shows(*rest, n)) by {
            if f.name == n && !f.hidden {
                assert(conditions::leads_to_place(a, None, n, 0));
            }
            if shows(*rest, n) {
                let i = choose|i: int| #[trigger] conditions::leads_to_place(*rest, None, n, i);
                assert(fields::field_at(a, (i + 1) as nat) == fields::field_at(*rest, i as nat));
                assert(conditions::leads_to_place(a, None, n, i + 1));
            }
            if shows(a, n) {
                let i = choose|i: int| #[trigger] conditions::leads_to_place(a, None, n, i);
                if i > 0 {
                    assert(fields::field_at(a, i as nat) == fields::field_at(
                        *rest,
                        (i - 1) as nat,
                    ));
                    assert(conditions::leads_to_place(*rest, None, n, i - 1));
                }
            }
        }
    }
}

proof fn lemma_has_ident(names: Idents, n: usize)
    ensures
        fields::has_ident(names, n) <==> exists|k: int|
            0 <= k < idents_len(names) && #[trigger] ident_at(names, k) == n,
    decreases names,
{
    if let Idents::Cons(m, rest) = names {
        lemma_has_ident(*rest, n);
        if m == n {
            assert(ident_at(names, 0) == n);
        }
        if exists|k: int| 0 <= k < idents_len(*rest) && #[trigger] ident_at(*rest, k) == n {
            let k = choose|k: int| 0 <= k < idents_len(*rest) && #[trigger] ident_at(*rest, k) == n;
            assert(ident_at(names, k + 1) == n);
        }
        if exists|k: int| 0 <= k < idents_len(names) && #[trigger] ident_at(names, k) == n {
            let k = choose|k: int|
                0 <= k < idents_len(names) && #[trigger] ident_at(names, k) == n;
            if k > 0 {
                assert(ident_at(*rest, k - 1) == n);
            }
        }
    }
}

/// NATURAL compares the columns of every name that both sides show, and no others.
pub proof fn law_natural_columns(l: Fields, r: Fields, n: usize, k: int)
    requires
        fields::fields_len(l) <= usize::MAX,
        fields::fields_len(r) <= usize::MAX,
        analyze::join_pairs(l, r, JoinOn::Natural) is Ok,
    ensures
        ({
            let ps = analyze::join_pairs(l, r, JoinOn::Natural)->Ok_0;
            let names = analyze::join_names(l, r, JoinOn::Natural);
            &&& pairs_len(ps) == idents_len(names)
            &&& (exists|i: int| 0 <= i < idents_len(names) && #[trigger] ident_at(names, i) == n)
                <==> shows(l, n) && shows(r, n)
            &&& 0 <= k < idents_len(names) ==> {
                &&& conditions::leads_to_place(l, None, ident_at(names, k), left_at(ps, k) as int)
                &&& conditions::leads_to_place(r, None, ident_at(names, k), right_at(ps, k) as int)
            }
        }),
{
    let names = fields::common_names(l, r);
    lemma_using_pairs(l, r, names, k);
    lemma_common_names(l, r, n);
    lemma_has_ident(names, n);
}

proof fn lemma_append_cells(a: Tuple, b: Tuple, k: nat)
    ensures
        datum::tuple_len(datum::tuple_append(a, b)) == datum::tuple_len(a) + datum::tuple_len(b),
        datum::cell(datum::tuple_append(a, b), k) == if k < datum::tuple_len(a) {
            datum::cell(a, k)
        } else {
            datum::cell(b, (k - datum::tuple_len(a)) as nat)
        },
    decreases a,
{
    if let Tuple::Cons(_, rest) = a {
        if k > 0 {
            lemma_append_cells(*rest, b, (k - 1) as nat);
        } else {
            lemma_append_cells(*rest, b, 0);
        }
    }
}

proof fn lemma_merged_cells(ps: Pairs, l: Tuple, r: Tuple, k: int)
    ensures
        datum::tuple_len(fields::merged(ps, l, r)) == pairs_len(ps),
        0 <= k < pairs_len(ps) ==> datum::cell(fields::merged(ps, l, r), k as nat) == if datum::cell(
            l,
            left_at(ps, k) as nat,
        ) == Datum::Null {
            datum::cell(r, right_at(ps, k) as nat)
        } else {
            datum::cell(l, left_at(ps, k) as nat)
        },
    decreases ps,
{
    if let Pairs::Cons(_, _, rest) = ps {
        lemma_merged_cells(*rest, l, r, k - 1);
    }
}

/// A row of a join has one cell for each pair of columns that the join compares, with the
/// left value or, where that is null, the right one; then the cells of the left row; then
/// those of the right row.
pub proof fn law_joined_row(ps: Pairs, l: Tuple, r: Tuple, k: int)
    ensures
        datum::tuple_len(fields::joined(ps, l, r)) == pairs_len(ps) + datum::tuple_len(l)
            + datum::tuple_len(r),
        0 <= k < pairs_len(ps) ==> datum::cell(fields::joined(ps, l, r), k as nat) == if datum::cell(
            l,
            left_at(ps, k) as nat,
        ) == Datum::Null {
            datum::cell(r, right_at(ps, k) as nat)
        } else {
            datum::cell(l, left_at(ps, k) as nat)
        },
        0 <= k < datum::tuple_len(l) ==> datum::cell(
            fields::joined(ps, l, r),
            (pairs_len(ps) + k) as nat,
        ) == datum::cell(l, k as nat),
        0 <= k < datum::tuple_len(r) ==> datum::cell(
            fields::joined(ps, l, r),
            (pairs_len(ps) + datum::tuple_len(l) + k) as nat,
        ) == datum::cell(r, k as nat),
{
    let m = fields::merged(ps, l, r);
    let both = datum::tuple_append(l, r);
    lemma_merged_cells(ps, l, r, k);
    if k >= 0 {
        lemma_append_cells(m, both, k as nat);
        lemma_append_cells(m, both, (pairs_len(ps) + k) as nat);
        lemma_append_cells(m, both, (pairs_len(ps) + datum::tuple_len(l) + k) as nat);
        lemma_append_cells(l, r, k as nat);
        lemma_append_cells(l, r, (datum::tuple_len(l) + k) as nat);
    } else {
        lemma_append_cells(m, both, 0);
        lemma_append_cells(l, r, 0);
    }
}

/// A row of nulls has nothing but nulls.
pub proof fn law_nulls(n: nat, k: nat)
    ensures
        datum::tuple_len(datum::nulls(n)) == n,
        datum::cell(datum::nulls(n), k) == Datum::Null,
    decreases n,
{
    if n > 0 {
        law_nulls((n - 1) as nat, if k > 0 {
            (k - 1) as nat
        } else {
            0
        });
    }
}

/// The right rows that a left row makes a pair with, as a condition.
pub open spec fn goes_with(cx: CxModel, env: Env, fs: Fields, on: JoinOn, ps: Pairs, l: Tuple) -> spec_fn(
    Tuple,
) -> bool {
    |r: Tuple| eval::pair_holds(cx, env, fs, on, ps, l, r) == Ok::<bool, Fault>(true)
}

/// How many rows the first `n` left rows make: one for each right row they go with, and one
/// for a left row without any, if `pad`.
pub open spec fn rows_made(
    cx: CxModel,
    env: Env,
    fs: Fields,
    on: JoinOn,
    ps: Pairs,
    pad: bool,
    lefts: Seq<Tuple>,
    rights: Seq<Tuple>,
    n: int,
) -> int
    decreases n,
{
    if n <= 0 {
        0
    } else {
        let m = rights.filter(goes_with(cx, env, fs, on, ps, lefts[n - 1])).len() as int;
        rows_made(cx, env, fs, on, ps, pad, lefts, rights, n - 1) + if pad && m == 0 {
            1
        } else {
            m
        }
    }
}

proof fn lemma_matches_count(
    cx: CxModel,
    env: Env,
    fs: Fields,
    on: JoinOn,
    ps: Pairs,
    l: Tuple,
    rights: Seq<Tuple>,
    j: int,
    acc: Seq<Tuple>,
)
    requires
        0 <= j <= rights.len(),
        acc.len() == rights.take(j).filter(goes_with(cx, env, fs, on, ps, l)).len(),
    ensures
        eval::matches_from(cx, env, fs, on, ps, l, rights, j, acc) matches Ok(ms) ==> ms.len()
            == rights.filter(goes_with(cx, env, fs, on, ps, l)).len(),
    decreases rights.len() - j,
{
    reveal(Seq::filter);
    let p = goes_with(cx, env, fs, on, ps, l);
    if j < rights.len() {
        let next = rights.take(j + 1);
        assert(next.drop_last() =~= rights.take(j));
        assert(next.last() == rights[j]);
        match eval::pair_holds(cx, env, fs, on, ps, l, rights[j]) {
            Err(_) => {},
            Ok(b) => {
                assert(p(rights[j]) == b);
                let more = if b {
                    acc.push(fields::joined(ps, l, rights[j]))
                } else {
                    acc
                };
                assert(more.len() == next.filter(p).len());
                lemma_matches_count(cx, env, fs, on, ps, l, rights, j + 1, more);
            },
        }
    } else {
        assert(rights.take(j) =~= rights);
    }
}

proof fn lemma_left_count(
    cx: CxModel,
    env: Env,
    fs: Fields,
    on: JoinOn,
    ps: Pairs,
    pad: bool,
    filler: Tuple,
    lefts: Seq<Tuple>,
    rights: Seq<Tuple>,
    i: int,
    acc: Seq<Tuple>,
)
    requires
        0 <= i <= lefts.len(),
        acc.len() == rows_made(cx, env, fs, on, ps, pad, lefts, rights, i),
    ensures
        eval::left_rows(cx, env, fs, on, ps, pad, filler, lefts, rights, i, acc) matches Ok(rows)
            ==> rows.len() == rows_made(
            cx,
            env,
            fs,
            on,
            ps,
            pad,
            lefts,
            rights,
            lefts.len() as int,
        ),
    decreases lefts.len() - i,
{
    if i < lefts.len() {
        reveal(Seq::filter);
        assert(rights.take(0) =~= Seq::empty());
        lemma_matches_count(cx, env, fs, on, ps, lefts[i], rights, 0, Seq::empty());
        if let Ok(ms) = eval::matches_from(cx, env, fs, on, ps, lefts[i], rights, 0, Seq::empty()) {
            let more = if pad && ms.len() == 0 {
                acc.push(fields::joined(ps, lefts[i], filler))
            } else {
                acc + ms
            };
            lemma_left_count(cx, env, fs, on, ps, pad, filler, lefts, rights, i + 1, more);
        }
    }
}

/// The right rows that no left row makes a pair with, as a condition.
pub open spec fn goes_alone(
    cx: CxModel,
    env: Env,
    fs: Fields,
    on: JoinOn,
    ps: Pairs,
    lefts: Seq<Tuple>,
) -> spec_fn(Tuple) -> bool {
    |r: Tuple| meaning::is_lonely_right(cx, env, fs, on, ps, r, lefts)
}

proof fn lemma_lonely_count(
    cx: CxModel,
    env: Env,
    fs: Fields,
    on: JoinOn,
    ps: Pairs,
    filler: Tuple,
    lefts: Seq<Tuple>,
    rights: Seq<Tuple>,
    j: int,
    start: nat,
    acc: Seq<Tuple>,
)
    requires
        0 <= j <= rights.len(),
        acc.len() == start + rights.take(j).filter(goes_alone(cx, env, fs, on, ps, lefts)).len(),
    ensures
        eval::lonely_rights(cx, env, fs, on, ps, filler, lefts, rights, j, acc) matches Ok(rows)
            ==> rows.len() == start + rights.filter(
            goes_alone(cx, env, fs, on, ps, lefts),
        ).len(),
    decreases rights.len() - j,
{
    reveal(Seq::filter);
    let p = goes_alone(cx, env, fs, on, ps, lefts);
    if j < rights.len() {
        let next = rights.take(j + 1);
        assert(next.drop_last() =~= rights.take(j));
        assert(next.last() == rights[j]);
        if let Ok(b) = eval::has_left(cx, env, fs, on, ps, rights[j], lefts, 0) {
            meaning::lemma_has_left(cx, env, fs, on, ps, rights[j], lefts, 0);
            assert(p(rights[j]) == !b);
            let more = if b {
                acc
            } else {
                acc.push(fields::joined(ps, filler, rights[j]))
            };
            assert(more.len() == start + next.filter(p).len());
            lemma_lonely_count(cx, env, fs, on, ps, filler, lefts, rights, j + 1, start, more);
        }
    } else {
        assert(rights.take(j) =~= rights);
    }
}

/// A join has one row for each pair of rows that its condition is true of, one more for each
/// left row without a match if it is a left or full join, and one more for each right row
/// without a match if it is a right or full join: no row is lost or doubled.
pub proof fn law_join_size(
    cx: CxModel,
    env: Env,
    kind: JoinKind,
    fs: Fields,
    on: JoinOn,
    ps: Pairs,
    l: RelModel,
    r: RelModel,
)
    ensures
        eval::join_rows(cx, env, kind, fs, on, ps, l, r) matches Ok(rows) ==> rows.len()
            == rows_made(
            cx,
            env,
            fs,
            on,
            ps,
            kind is Left || kind is Full,
            l.rows,
            r.rows,
            l.rows.len() as int,
        ) + if kind is Right || kind is Full {
            r.rows.filter(goes_alone(cx, env, fs, on, ps, l.rows)).len() as int
        } else {
            0
        },
{
    let pad = kind is Left || kind is Full;
    let right_nulls = datum::nulls(fields::fields_len(r.fields));
    let left_nulls = datum::nulls(fields::fields_len(l.fields));
    lemma_left_count(
        cx,
        env,
        fs,
        on,
        ps,
        pad,
        right_nulls,
        l.rows,
        r.rows,
        0,
        Seq::empty(),
    );
    if let Ok(rows) = eval::left_rows(
        cx,
        env,
        fs,
        on,
        ps,
        pad,
        right_nulls,
        l.rows,
        r.rows,
        0,
        Seq::empty(),
    ) {
        reveal(Seq::filter);
        assert(r.rows.take(0) =~= Seq::empty());
        lemma_lonely_count(
            cx,
            env,
            fs,
            on,
            ps,
            left_nulls,
            l.rows,
            r.rows,
            0,
            rows.len(),
            rows,
        );
    }
}

proof fn lemma_fields_append_at(a: Fields, b: Fields, i: nat)
    ensures
        fields::fields_len(fields::fields_append(a, b)) == fields::fields_len(a)
            + fields::fields_len(b),
        fields::field_at(fields::fields_append(a, b), i) == if i < fields::fields_len(a) {
            fields::field_at(a, i)
        } else {
            fields::field_at(b, (i - fields::fields_len(a)) as nat)
        },
    decreases a,
{
    if let Fields::Cons(_, rest) = a {
        lemma_fields_append_at(*rest, b, if i > 0 {
            (i - 1) as nat
        } else {
            0
        });
    }
}

/// A source that is a join has the rows that the join makes of the rows of its sides.
pub proof fn law_join_source(
    cx: CxModel,
    env: Env,
    kind: JoinKind,
    a: Box<Source>,
    b: Box<Source>,
    on: JoinOn,
)
    ensures
        eval::source_rel(cx, env, Source::Join(kind, a, b, on)) matches Ok(rel) ==> {
            &&& eval::source_rel(cx, env, *a) matches Ok(l)
            &&& eval::source_rel(cx, env, *b) matches Ok(r)
            &&& analyze::join_pairs(l.fields, r.fields, on) matches Ok(ps)
            &&& eval::join_rows(cx, env, kind, rel.fields, on, ps, l, r) == Ok::<
                Seq<Tuple>,
                Fault,
            >(rel.rows)
        },
{
}

proof fn lemma_nullable_at(fs: Fields, all: bool, i: nat)
    ensures
        fields::fields_len(fields::made_nullable(fs, all)) == fields::fields_len(fs),
        match (fields::field_at(fs, i), fields::field_at(fields::made_nullable(fs, all), i)) {
            (Some(f), Some(g)) => {
                &&& g.name == f.name
                &&& g.qualifier == f.qualifier
                &&& g.ty == f.ty
                &&& g.hidden == f.hidden
                &&& g.nullable == (f.nullable || all)
            },
            (None, None) => true,
            _ => false,
        },
    decreases fs,
{
    if let Fields::Cons(_, rest) = fs {
        lemma_nullable_at(*rest, all, if i > 0 {
            (i - 1) as nat
        } else {
            0
        });
    }
}

proof fn lemma_hidden_at(fs: Fields, names: Idents, i: nat)
    ensures
        fields::fields_len(fields::with_hidden(fs, names)) == fields::fields_len(fs),
        match (fields::field_at(fs, i), fields::field_at(fields::with_hidden(fs, names), i)) {
            (Some(f), Some(g)) => {
                &&& g.name == f.name
                &&& g.qualifier == f.qualifier
                &&& g.ty == f.ty
                &&& g.nullable == f.nullable
                &&& g.hidden == (f.hidden || fields::has_ident(names, f.name))
            },
            (None, None) => true,
            _ => false,
        },
    decreases fs,
{
    if let Fields::Cons(_, rest) = fs {
        lemma_hidden_at(*rest, names, if i > 0 {
            (i - 1) as nat
        } else {
            0
        });
    }
}

proof fn lemma_merged_at(
    l: Fields,
    names: Idents,
    alias: Option<usize>,
    nullable: bool,
    k: int,
)
    ensures
        fields::fields_len(analyze::merged_fields(l, names, alias, nullable)) == idents_len(names),
        0 <= k < idents_len(names) ==> (fields::field_at(
            analyze::merged_fields(l, names, alias, nullable),
            k as nat,
        ) matches Some(f) && f.name == ident_at(names, k) && f.qualifier == alias && !f.hidden),
    decreases names,
{
    if let Idents::Cons(_, rest) = names {
        lemma_merged_at(l, *rest, alias, nullable, k - 1);
    }
}

/// The columns of a join are those that it merges, visible under their names; then those of
/// the left side; then those of the right side. The columns that it merges are hidden on
/// their own sides, and a side that can be without a row has columns that can be null.
pub proof fn law_join_columns(kind: JoinKind, l: Fields, r: Fields, on: JoinOn, k: int)
    requires
        0 <= k,
    ensures
        ({
            let names = analyze::join_names(l, r, on);
            let n = idents_len(names);
            let fs = analyze::join_fields(kind, l, r, on);
            &&& fields::fields_len(fs) == n + fields::fields_len(l) + fields::fields_len(r)
            &&& k < n ==> (fields::field_at(fs, k as nat) matches Some(f) && f.name == ident_at(
                names,
                k,
            ) && !f.hidden)
            &&& k < fields::fields_len(l) ==> {
                let f = fields::field_at(l, k as nat);
                let g = fields::field_at(fs, (n + k) as nat);
                &&& f is Some && g is Some
                &&& g->Some_0.name == f->Some_0.name
                &&& g->Some_0.qualifier == f->Some_0.qualifier
                &&& g->Some_0.ty == f->Some_0.ty
                &&& g->Some_0.hidden == (f->Some_0.hidden || exists|i: int|
                    0 <= i < n && #[trigger] ident_at(names, i) == f->Some_0.name)
                &&& g->Some_0.nullable == (f->Some_0.nullable || kind is Right || kind is Full)
            }
            &&& k < fields::fields_len(r) ==> {
                let f = fields::field_at(r, k as nat);
                let g = fields::field_at(fs, (n + fields::fields_len(l) + k) as nat);
                &&& f is Some && g is Some
                &&& g->Some_0.name == f->Some_0.name
                &&& g->Some_0.qualifier == f->Some_0.qualifier
                &&& g->Some_0.ty == f->Some_0.ty
                &&& g->Some_0.hidden == (f->Some_0.hidden || exists|i: int|
                    0 <= i < n && #[trigger] ident_at(names, i) == f->Some_0.name)
                &&& g->Some_0.nullable == (f->Some_0.nullable || kind is Left || kind is Full)
            }
        }),
{
    let names = analyze::join_names(l, r, on);
    let n = idents_len(names);
    let outer_l = kind == JoinKind::Right || kind == JoinKind::Full;
    let outer_r = kind == JoinKind::Left || kind == JoinKind::Full;
    let first = analyze::merged_fields(l, names, analyze::join_alias(on), outer_l);
    let left = fields::made_nullable(l, outer_l);
    let right = fields::made_nullable(r, outer_r);
    let hl = fields::with_hidden(left, names);
    let hr = fields::with_hidden(right, names);
    let both = fields::fields_append(hl, hr);
    lemma_merged_at(l, names, analyze::join_alias(on), outer_l, k);
    lemma_nullable_at(l, outer_l, k as nat);
    lemma_nullable_at(r, outer_r, k as nat);
    lemma_hidden_at(left, names, k as nat);
    lemma_hidden_at(right, names, k as nat);
    lemma_fields_append_at(hl, hr, k as nat);
    lemma_fields_append_at(hl, hr, (fields::fields_len(l) + k) as nat);
    lemma_fields_append_at(first, both, k as nat);
    lemma_fields_append_at(first, both, (n + k) as nat);
    lemma_fields_append_at(first, both, (n + fields::fields_len(l) + k) as nat);
    lemma_field_there(l, k as nat);
    lemma_field_there(r, k as nat);
    if k < fields::fields_len(l) {
        lemma_has_ident(names, fields::field_at(l, k as nat)->Some_0.name);
    }
    if k < fields::fields_len(r) {
        lemma_has_ident(names, fields::field_at(r, k as nat)->Some_0.name);
    }
}

proof fn lemma_field_there(fs: Fields, k: nat)
    ensures
        fields::field_at(fs, k) is Some <==> k < fields::fields_len(fs),
    decreases fs,
{
    if let Fields::Cons(_, rest) = fs {
        if k > 0 {
            lemma_field_there(*rest, (k - 1) as nat);
        }
    }
}

/// The value of an expression for a row.
pub open spec fn row_value(cx: CxModel, env: Env, fs: Fields, e: Expr) -> spec_fn(Tuple) -> Datum {
    |row: Tuple|
        match eval::expr_value(cx, Env::Frame(&fs, &row, &env), None, e) {
            Ok(d) => d,
            Err(_) => Datum::Null,
        }
}

/// The values that an expression has for rows, without nulls.
pub open spec fn values_given(
    cx: CxModel,
    env: Env,
    fs: Fields,
    e: Expr,
    rows: Seq<Tuple>,
) -> Seq<Datum> {
    rows.map_values(row_value(cx, env, fs, e)).filter(|d: Datum| d != Datum::Null)
}

proof fn lemma_argument_values(
    cx: CxModel,
    env: Env,
    fs: Fields,
    e: Expr,
    rows: Seq<Tuple>,
    i: int,
    acc: Seq<Datum>,
)
    requires
        0 <= i <= rows.len(),
        acc == values_given(cx, env, fs, e, rows.take(i)),
    ensures
        eval::argument_values(cx, env, fs, e, rows, i, acc) matches Ok(vs) ==> vs == values_given(
            cx,
            env,
            fs,
            e,
            rows,
        ),
    decreases rows.len() - i,
{
    reveal(Seq::filter);
    let f = row_value(cx, env, fs, e);
    if i < rows.len() {
        let next = rows.take(i + 1);
        assert(next.map_values(f).drop_last() =~= rows.take(i).map_values(f));
        assert(next.map_values(f).last() == f(rows[i]));
        if let Ok(d) = eval::expr_value(cx, Env::Frame(&fs, &rows[i], &env), None, e) {
            let more = if d == Datum::Null {
                acc
            } else {
                acc.push(d)
            };
            assert(more == values_given(cx, env, fs, e, next));
            lemma_argument_values(cx, env, fs, e, rows, i + 1, more);
        }
    } else {
        assert(rows.take(i) =~= rows);
    }
}

/// COUNT(*) is the number of rows of the group. COUNT is the number of those for which the
/// argument is not null, COUNT(DISTINCT ..) the number of different values.
pub proof fn law_counts(
    cx: CxModel,
    fs: Fields,
    row: Tuple,
    outer: Env,
    rows: Seq<Tuple>,
    x: Box<Expr>,
)
    ensures
        conditions::is_worth(
            cx,
            Env::Frame(&fs, &row, &outer),
            Some(rows),
            Expr::CountRows,
            Datum::Big(rows.len() as i64),
        ),
        eval::expr_value(
            cx,
            Env::Frame(&fs, &row, &outer),
            Some(rows),
            Expr::Agg(AggFn::Count, false, x),
        ) matches Ok(d) ==> d == Datum::Big(values_given(cx, outer, fs, *x, rows).len() as i64),
        eval::expr_value(
            cx,
            Env::Frame(&fs, &row, &outer),
            Some(rows),
            Expr::Agg(AggFn::Count, true, x),
        ) matches Ok(d) ==> d == Datum::Big(
            values_given(cx, outer, fs, *x, rows).to_set().len() as i64,
        ),
{
    reveal(Seq::filter);
    assert(rows.take(0).map_values(row_value(cx, outer, fs, *x)) =~= Seq::empty());
    lemma_argument_values(cx, outer, fs, *x, rows, 0, Seq::empty());
    let vs = values_given(cx, outer, fs, *x, rows);
    let us = eval::distinct_values(vs);
    assert forall|d: Datum| us.contains(d) <==> vs.contains(d) by {
        meaning::law_distinct_values(vs, d);
    }
    meaning::law_distinct_values(vs, Datum::Null);
    us.unique_seq_to_set();
    assert(us.to_set() =~= vs.to_set());
}

/// An aggregate of a group is that of the values that its argument has for the rows of the
/// group, without nulls, and with DISTINCT that of these values, each once.
pub proof fn law_aggregates(
    cx: CxModel,
    fs: Fields,
    row: Tuple,
    outer: Env,
    rows: Seq<Tuple>,
    f: AggFn,
    once: bool,
    x: Box<Expr>,
)
    ensures
        eval::expr_value(
            cx,
            Env::Frame(&fs, &row, &outer),
            Some(rows),
            Expr::Agg(f, once, x),
        ) matches Ok(d) ==> exists|vs: Seq<Datum>|
            {
                &&& #[trigger] eval::aggregate(cx.symbols, f, false, vs) == Ok::<Datum, Fault>(d)
                &&& !once ==> vs == values_given(cx, outer, fs, *x, rows)
                &&& once ==> vs.no_duplicates() && forall|v: Datum| #[trigger]
                    vs.contains(v) <==> values_given(cx, outer, fs, *x, rows).contains(v)
            },
{
    reveal(Seq::filter);
    assert(rows.take(0).map_values(row_value(cx, outer, fs, *x)) =~= Seq::empty());
    lemma_argument_values(cx, outer, fs, *x, rows, 0, Seq::empty());
    let all = values_given(cx, outer, fs, *x, rows);
    let vs = if once {
        eval::distinct_values(all)
    } else {
        all
    };
    assert(eval::aggregate(cx.symbols, f, once, all) == eval::aggregate(cx.symbols, f, false, vs));
    if once {
        meaning::law_distinct_values(all, Datum::Null);
        assert forall|v: Datum| #[trigger] vs.contains(v) <==> all.contains(v) by {
            meaning::law_distinct_values(all, v);
        }
    }
}

proof fn lemma_key_rows(
    cx: CxModel,
    env: Env,
    fs: Fields,
    es: Exprs,
    rows: Seq<Tuple>,
    i: int,
    acc: Seq<Keyed>,
)
    requires
        0 <= i <= rows.len(),
        acc.len() == i,
        forall|k: int|
            0 <= k < i ==> (#[trigger] acc[k]).out == rows[k] && eval::exprs_value(
                cx,
                Env::Frame(&fs, &rows[k], &env),
                None,
                es,
            ) == Ok::<Tuple, Fault>(acc[k].on),
    ensures
        eval::key_rows(cx, env, fs, es, rows, i, acc) matches Ok(ks) ==> {
            &&& ks.len() == rows.len()
            &&& forall|k: int|
                0 <= k < rows.len() ==> (#[trigger] ks[k]).out == rows[k] && eval::exprs_value(
                    cx,
                    Env::Frame(&fs, &rows[k], &env),
                    None,
                    es,
                ) == Ok::<Tuple, Fault>(ks[k].on)
        },
    decreases rows.len() - i,
{
    if i < rows.len() {
        let here = Env::Frame(&fs, &rows[i], &env);
        if let Ok(t) = eval::exprs_value(cx, here, None, es) {
            let next = Keyed { on: t, keys: Tuple::Nil, out: rows[i] };
            lemma_key_rows(cx, env, fs, es, rows, i + 1, acc.push(next));
        }
    }
}

/// Rows are grouped by the values of the grouping expressions for them, one value for each
/// expression, and stay the rows that they are.
pub proof fn law_grouping_values(
    cx: CxModel,
    env: Env,
    fs: Fields,
    es: Exprs,
    rows: Seq<Tuple>,
    k: int,
    j: int,
)
    requires
        eval::key_rows(cx, env, fs, es, rows, 0, Seq::empty()) is Ok,
        0 <= k < rows.len(),
        0 <= j < conditions::exprs_len(es),
    ensures
        ({
            let ks = eval::key_rows(cx, env, fs, es, rows, 0, Seq::empty())->Ok_0;
            &&& ks.len() == rows.len()
            &&& ks[k].out == rows[k]
            &&& datum::tuple_len(ks[k].on) == conditions::exprs_len(es)
            &&& conditions::is_worth(
                cx,
                Env::Frame(&fs, &rows[k], &env),
                None,
                conditions::expr_at(es, j),
                datum::cell(ks[k].on, j as nat),
            )
        }),
{
    lemma_key_rows(cx, env, fs, es, rows, 0, Seq::empty());
    lemma_exprs_value(cx, Env::Frame(&fs, &rows[k], &env), None, es, j);
}

proof fn lemma_members_filter(ks: Seq<Keyed>, on: Tuple)
    ensures
        eval::group_members(ks, on) == relation::outs(ks.filter(|k: Keyed| k.on == on)),
    decreases ks.len(),
{
    reveal(Seq::filter);
    let p = |k: Keyed| k.on == on;
    if ks.len() > 0 {
        lemma_members_filter(ks.drop_last(), on);
        let before = ks.drop_last().filter(p);
        assert(relation::outs(before.push(ks.last())) =~= relation::outs(before).push(
            ks.last().out,
        ));
    } else {
        assert(relation::outs(Seq::<Keyed>::empty()) =~= Seq::empty());
    }
}

/// The rows of a group are all rows with its values, in their order, each as often as it is
/// there; the first of them stands for the group, and nulls for a group without rows.
pub proof fn law_group_rows(ks: Seq<Keyed>, on: Tuple, fs: Fields)
    ensures
        eval::group_members(ks, on) == relation::outs(ks.filter(|k: Keyed| k.on == on)),
        eval::group_members(ks, on).len() > 0 ==> eval::group_head(
            fs,
            eval::group_members(ks, on),
        ) == eval::group_members(ks, on)[0],
        forall|k: nat| #[trigger]
            datum::cell(eval::group_head(fs, Seq::empty()), k) == Datum::Null,
{
    lemma_members_filter(ks, on);
    assert forall|k: nat| #[trigger] datum::cell(eval::group_head(fs, Seq::empty()), k)
        == Datum::Null by {
        law_nulls(fields::fields_len(fs), k);
    }
}

/// Whether HAVING keeps a group.
pub open spec fn keeps_group(
    cx: CxModel,
    env: Env,
    fs: Fields,
    s: Select,
    rows: Seq<Tuple>,
) -> bool {
    let head = eval::group_head(fs, rows);
    conditions::is_worth(
        cx,
        Env::Frame(&fs, &head, &env),
        Some(rows),
        s.having,
        Datum::Bool(true),
    )
}

/// The result of a group.
pub open spec fn group_result(
    cx: CxModel,
    env: Env,
    fs: Fields,
    outs: Fields,
    s: Select,
    rows: Seq<Tuple>,
) -> Result<Keyed, Fault> {
    let head = eval::group_head(fs, rows);
    eval::block_output(cx, Env::Frame(&fs, &head, &env), Some(rows), outs, s)
}

/// Whether a group is kept and gives the result `x`.
#[verifier::opaque]
pub open spec fn group_gives(
    cx: CxModel,
    env: Env,
    fs: Fields,
    outs: Fields,
    s: Select,
    rows: Seq<Tuple>,
    x: Keyed,
) -> bool {
    keeps_group(cx, env, fs, s, rows) && group_result(cx, env, fs, outs, s, rows) == Ok::<
        Keyed,
        Fault,
    >(x)
}

proof fn lemma_group_step(
    cx: CxModel,
    env: Env,
    fs: Fields,
    outs: Fields,
    s: Select,
    ks: Seq<Keyed>,
    heads: Seq<Keyed>,
    i: int,
    acc: Seq<Keyed>,
) -> (y: Option<Keyed>)
    requires
        0 <= i < heads.len(),
        eval::group_outputs(cx, env, fs, outs, s, ks, heads, i, acc) is Ok,
    ensures
        eval::group_outputs(cx, env, fs, outs, s, ks, heads, i, acc) == eval::group_outputs(
            cx,
            env,
            fs,
            outs,
            s,
            ks,
            heads,
            i + 1,
            match y {
                Some(k) => acc.push(k),
                None => acc,
            },
        ),
        forall|x: Keyed| #[trigger]
            group_gives(cx, env, fs, outs, s, eval::group_members(ks, heads[i].on), x) <==> y
                == Some(x),
{
    reveal(group_gives);
    let rows = eval::group_members(ks, heads[i].on);
    let head = eval::group_head(fs, rows);
    let here = Env::Frame(&fs, &head, &env);
    let d = eval::expr_value(cx, here, Some(rows), s.having)->Ok_0;
    if datum::holds(d) {
        Some(eval::block_output(cx, here, Some(rows), outs, s)->Ok_0)
    } else {
        None
    }
}

proof fn lemma_group_outputs(
    cx: CxModel,
    env: Env,
    fs: Fields,
    outs: Fields,
    s: Select,
    ks: Seq<Keyed>,
    heads: Seq<Keyed>,
    i: int,
    acc: Seq<Keyed>,
    x: Keyed,
)
    requires
        0 <= i <= heads.len(),
        eval::group_outputs(cx, env, fs, outs, s, ks, heads, i, acc) is Ok,
    ensures
        ({
            let out = eval::group_outputs(cx, env, fs, outs, s, ks, heads, i, acc)->Ok_0;
            &&& out.contains(x) <==> acc.contains(x) || exists|k: int|
                i <= k < heads.len() && group_gives(
                    cx,
                    env,
                    fs,
                    outs,
                    s,
                    eval::group_members(ks, (#[trigger] heads[k]).on),
                    x,
                )
            &&& out.len() <= acc.len() + heads.len() - i
        }),
    decreases heads.len() - i,
{
    if i < heads.len() {
        let y = lemma_group_step(cx, env, fs, outs, s, ks, heads, i, acc);
        let more = match y {
            Some(k) => acc.push(k),
            None => acc,
        };
        lemma_group_outputs(cx, env, fs, outs, s, ks, heads, i + 1, more, x);
        let here = group_gives(cx, env, fs, outs, s, eval::group_members(ks, heads[i].on), x);
        assert(more.contains(x) <==> acc.contains(x) || here) by {
            if acc.contains(x) {
                let k = choose|k: int| 0 <= k < acc.len() && acc[k] == x;
                assert(more[k] == x);
            }
            if y is Some {
                assert(more[acc.len() as int] == y->Some_0);
            }
            if more.contains(x) && !acc.contains(x) {
                let k = choose|k: int| 0 <= k < more.len() && more[k] == x;
                if k < acc.len() {
                    assert(acc[k] == x);
                }
            }
        }
        if exists|k: int|
            i <= k < heads.len() && group_gives(
                cx,
                env,
                fs,
                outs,
                s,
                eval::group_members(ks, (#[trigger] heads[k]).on),
                x,
            ) {
            let k = choose|k: int|
                i <= k < heads.len() && group_gives(
                    cx,
                    env,
                    fs,
                    outs,
                    s,
                    eval::group_members(ks, (#[trigger] heads[k]).on),
                    x,
                );
            if k > i {
                assert(i + 1 <= k);
            }
        }
    }
}

/// A grouped query block has one result for each group that HAVING is true of, and no other.
/// Without grouping expressions all rows are one group, even if there are none.
pub proof fn law_grouped_block(
    cx: CxModel,
    env: Env,
    fs: Fields,
    outs: Fields,
    s: Select,
    ks: Seq<Keyed>,
    x: Keyed,
)
    ensures
        eval::group_outputs(
            cx,
            env,
            fs,
            outs,
            s,
            ks,
            eval::group_heads(s, ks),
            0,
            Seq::empty(),
        ) matches Ok(out) ==> {
            let heads = eval::group_heads(s, ks);
            &&& out.contains(x) <==> exists|k: int|
                0 <= k < heads.len() && group_gives(
                    cx,
                    env,
                    fs,
                    outs,
                    s,
                    eval::group_members(ks, (#[trigger] heads[k]).on),
                    x,
                )
            &&& out.len() <= heads.len()
        },
        s.group is Nil ==> eval::group_heads(s, ks).len() == 1,
        !(s.group is Nil) ==> forall|i: int|
            0 <= i < ks.len() ==> exists|j: int|
                0 <= j < eval::group_heads(s, ks).len() && (#[trigger] eval::group_heads(
                    s,
                    ks,
                )[j]).on == (#[trigger] ks[i]).on,
        forall|i: int, j: int|
            0 <= i < j < eval::group_heads(s, ks).len() ==> (#[trigger] eval::group_heads(
                s,
                ks,
            )[i]).on != (#[trigger] eval::group_heads(s, ks)[j]).on,
{
    let heads = eval::group_heads(s, ks);
    if eval::group_outputs(cx, env, fs, outs, s, ks, heads, 0, Seq::empty()) is Ok {
        lemma_group_outputs(cx, env, fs, outs, s, ks, heads, 0, Seq::empty(), x);
    }
    if !(s.group is Nil) {
        law_first_of_each(ks, x);
        assert forall|i: int| 0 <= i < ks.len() implies exists|j: int|
            0 <= j < heads.len() && (#[trigger] heads[j]).on == (#[trigger] ks[i]).on by {
            lemma_seen(ks, i);
        }
    }
}

/// A set operation gives back what it makes of the rows of its two queries: a union those of
/// either, an intersection those of both, a difference those of the first that the second
/// has not; each once, or with ALL as often as both together, as the one that has fewer, or
/// as the first has more.
pub proof fn law_combined_query(
    cx: CxModel,
    env: Env,
    a: Box<Query>,
    b: Box<Query>,
    x: Tuple,
    p: Seq<Tuple>,
    q: Seq<Tuple>,
)
    requires
        eval::query_rows(cx, env, *a) == Ok::<Seq<Tuple>, Fault>(p),
        eval::query_rows(cx, env, *b) == Ok::<Seq<Tuple>, Fault>(q),
    ensures
        eval::query_rows(
            cx,
            env,
            Query::Combined(Combine::Union, false, a, b),
        ) matches Ok(out) && out.no_duplicates() && (out.contains(x) <==> p.contains(x)
            || q.contains(x)),
        eval::query_rows(
            cx,
            env,
            Query::Combined(Combine::Intersect, false, a, b),
        ) matches Ok(out) && out.no_duplicates() && (out.contains(x) <==> p.contains(x)
            && q.contains(x)),
        eval::query_rows(
            cx,
            env,
            Query::Combined(Combine::Except, false, a, b),
        ) matches Ok(out) && out.no_duplicates() && (out.contains(x) <==> p.contains(x)
            && !q.contains(x)),
        eval::query_rows(
            cx,
            env,
            Query::Combined(Combine::Union, true, a, b),
        ) matches Ok(out) && out.to_multiset().count(x) == p.to_multiset().count(x)
            + q.to_multiset().count(x),
        eval::query_rows(
            cx,
            env,
            Query::Combined(Combine::Intersect, true, a, b),
        ) matches Ok(out) && out.to_multiset().count(x) == (if p.to_multiset().count(x)
            < q.to_multiset().count(x) {
            p.to_multiset().count(x)
        } else {
            q.to_multiset().count(x)
        }),
        eval::query_rows(
            cx,
            env,
            Query::Combined(Combine::Except, true, a, b),
        ) matches Ok(out) && out.to_multiset().count(x) == (if p.to_multiset().count(x)
            < q.to_multiset().count(x) {
            0
        } else {
            p.to_multiset().count(x) - q.to_multiset().count(x)
        }),
{
    relation::law_set_operations(p, q, x);
    meaning::law_set_operations_all(p, q, x);
}

/// How many rows of expressions there are.
pub open spec fn lines_len(rows: ExprRows) -> nat
    decreases rows,
{
    match rows {
        ExprRows::Nil => 0,
        ExprRows::Cons(_, rest) => 1 + lines_len(*rest),
    }
}

/// The row of expressions at place `k`.
pub open spec fn line_at(rows: ExprRows, k: int) -> Exprs
    decreases rows,
{
    match rows {
        ExprRows::Nil => Exprs::Nil,
        ExprRows::Cons(row, rest) => if k == 0 {
            *row
        } else {
            line_at(*rest, k - 1)
        },
    }
}

proof fn lemma_values_rows(cx: CxModel, env: Env, rows: ExprRows, acc: Seq<Tuple>, k: int)
    ensures
        eval::values_rows(cx, env, rows, acc) matches Ok(out) ==> {
            &&& out.len() == acc.len() + lines_len(rows)
            &&& 0 <= k < acc.len() ==> out[k] == acc[k]
            &&& acc.len() <= k < out.len() ==> eval::exprs_value(
                cx,
                env,
                None,
                line_at(rows, k - acc.len()),
            ) == Ok::<Tuple, Fault>(out[k])
        },
    decreases rows,
{
    if let ExprRows::Cons(row, rest) = rows {
        if let Ok(t) = eval::exprs_value(cx, env, None, *row) {
            lemma_values_rows(cx, env, *rest, acc.push(t), k);
            if eval::values_rows(cx, env, rows, acc) is Ok && k >= acc.len() {
                assert(line_at(rows, 0) == *row);
                if k > acc.len() {
                    assert(line_at(rows, k - acc.len()) == line_at(*rest, k - acc.len() - 1));
                }
            }
        }
    }
}

/// VALUES gives back one row for each of its lists, with one cell for each expression, which
/// is its value.
pub proof fn law_values(cx: CxModel, env: Env, rows: Box<ExprRows>, k: int, j: int)
    requires
        eval::query_rows(cx, env, Query::Values(rows)) is Ok,
        0 <= k < lines_len(*rows),
        0 <= j < conditions::exprs_len(line_at(*rows, k)),
    ensures
        ({
            let out = eval::query_rows(cx, env, Query::Values(rows))->Ok_0;
            &&& out.len() == lines_len(*rows)
            &&& datum::tuple_len(out[k]) == conditions::exprs_len(line_at(*rows, k))
            &&& conditions::is_worth(
                cx,
                env,
                None,
                conditions::expr_at(line_at(*rows, k), j),
                datum::cell(out[k], j as nat),
            )
        }),
{
    lemma_values_rows(cx, env, *rows, Seq::empty(), k);
    lemma_exprs_value(cx, env, None, line_at(*rows, k), j);
}

/// A series has one row for each number from the first to the last, in their order, and none
/// if the first is greater than the last or one of them is null.
pub proof fn law_series(
    cx: CxModel,
    env: Env,
    x: Box<Expr>,
    y: Box<Expr>,
    a: Datum,
    b: Datum,
    k: int,
)
    requires
        conditions::is_worth(cx, env, None, *x, a),
        conditions::is_worth(cx, env, None, *y, b),
    ensures
        eval::query_rows(cx, env, Query::Series(x, y)) matches Ok(out) && {
            &&& a == Datum::Null || b == Datum::Null ==> out.len() == 0
            &&& datum::is_number(a) && datum::is_number(b) ==> out.len() == (
            if datum::as_number(a) <= datum::as_number(b) {
                datum::as_number(b) - datum::as_number(a) + 1
            } else {
                0
            })
            &&& 0 <= k < out.len() ==> {
                &&& datum::tuple_len(out[k]) == 1
                &&& datum::is_number(datum::cell(out[k], 0))
                &&& datum::as_number(datum::cell(out[k], 0)) == datum::as_number(a) + k
            }
        },
{
    if datum::is_number(a) && datum::is_number(b) {
        let out = eval::series(a, b);
        if 0 <= k < out.len() {
            reveal_with_fuel(datum::tuple_len, 2);
            let n = datum::as_number(a) + k;
            assert(datum::as_number(a) <= n <= datum::as_number(b));
        }
    }
}

/// In the body of WITH the name means the rows of the query that it was given to, under the
/// new names of its columns; other names mean what they meant before.
pub proof fn law_with(
    cx: CxModel,
    env: Env,
    n: usize,
    cols: Box<Idents>,
    def: Box<Query>,
    body: Box<Query>,
    other: usize,
)
    requires
        eval::query_rows(cx, env, Query::With(n, cols, def, body)) is Ok,
    ensures
        eval::query_rows(cx, env, *def) matches Ok(rows) && analyze::query_fields(
            cx,
            env,
            *def,
        ) matches Ok(fs) && exists|inner: CxModel|
            {
                &&& #[trigger] eval::query_rows(inner, env, *body) == eval::query_rows(
                    cx,
                    env,
                    Query::With(n, cols, def, body),
                )
                &&& inner.db == cx.db
                &&& inner.symbols == cx.symbols
                &&& inner.path == cx.path
                &&& inner.user == cx.user
                &&& inner.params == cx.params
                &&& analyze::named_rows(inner.named, n) == Some(rows)
                &&& analyze::named_fields(inner.named, n) == Some(fields::renamed(fs, *cols))
                &&& other != n ==> analyze::named_rows(inner.named, other) == analyze::named_rows(
                    cx.named,
                    other,
                ) && analyze::named_fields(inner.named, other) == analyze::named_fields(
                    cx.named,
                    other,
                )
            },
{
    let rows = eval::query_rows(cx, env, *def)->Ok_0;
    let fs = analyze::query_fields(cx, env, *def)->Ok_0;
    let inner = analyze::with_named(cx, n, fields::renamed(fs, *cols), rows);
    assert(eval::query_rows(inner, env, *body) == eval::query_rows(
        cx,
        env,
        Query::With(n, cols, def, body),
    ));
}

/// A table as a source has the rows of the query that WITH gave its name to, and otherwise
/// those of the table that the name leads to.
pub proof fn law_table_source(cx: CxModel, env: Env, n: Name, alias: Option<usize>, i: usize)
    ensures
        n.schema is None && analyze::named_rows(cx.named, n.name) is Some && analyze::named_fields(
            cx.named,
            n.name,
        ) is Some ==> (eval::source_rel(cx, env, Source::Table(n, alias)) matches Ok(rel)
            && rel.rows == analyze::named_rows(cx.named, n.name)->Some_0 && fields::fields_len(
            rel.fields,
        ) == fields::fields_len(analyze::named_fields(cx.named, n.name)->Some_0)),
        (n.schema is Some || analyze::named_fields(cx.named, n.name) is None)
            && crate::catalog::resolved(cx.db.tables, cx.path, n) == Some(i) ==> (
        eval::source_rel(cx, env, Source::Table(n, alias)) matches Ok(rel) && rel.rows
            == cx.db.tables[i as int].rows),
{
    if let Some(fs) = analyze::named_fields(cx.named, n.name) {
        lemma_requalified(
            fs,
            match alias {
                Some(a) => a,
                None => n.name,
            },
        );
    }
}

proof fn lemma_requalified(fs: Fields, q: usize)
    ensures
        fields::fields_len(fields::requalified(fs, q)) == fields::fields_len(fs),
    decreases fs,
{
    if let Fields::Cons(_, rest) = fs {
        lemma_requalified(*rest, q);
    }
}

proof fn lemma_window_keys(cx: CxModel, env: Env, os: Orders, k: int)
    ensures
        eval::window_keys(cx, env, os) matches Ok(keys) ==> {
            &&& datum::tuple_len(keys) == relation::orders_len(os)
            &&& 0 <= k < relation::orders_len(os) ==> conditions::is_worth(
                cx,
                env,
                None,
                order_at(os, k),
                datum::cell(keys, k as nat),
            )
        },
    decreases os,
{
    if let Orders::Cons(_, _, _, rest) = os {
        lemma_window_keys(cx, env, *rest, k - 1);
    }
}

/// What a window sees of a row: the values of its partition, one for each expression; its
/// sort keys, one for each entry of the order; its argument; and the row itself.
pub proof fn law_window_row(cx: CxModel, env: Env, over: Over, row: Tuple, k: int)
    requires
        eval::window_row(cx, env, over, row) is Ok,
    ensures
        ({
            let r = eval::window_row(cx, env, over, row)->Ok_0;
            &&& datum::tuple_len(r.on) == conditions::exprs_len(over.partition)
            &&& 0 <= k < conditions::exprs_len(over.partition) ==> conditions::is_worth(
                cx,
                env,
                None,
                conditions::expr_at(over.partition, k),
                datum::cell(r.on, k as nat),
            )
            &&& datum::tuple_len(r.keys) == relation::orders_len(over.orders)
            &&& 0 <= k < relation::orders_len(over.orders) ==> conditions::is_worth(
                cx,
                env,
                None,
                order_at(over.orders, k),
                datum::cell(r.keys, k as nat),
            )
            &&& conditions::is_worth(cx, env, None, over.arg, datum::cell(r.out, 0))
            &&& r.out == Tuple::Cons(datum::cell(r.out, 0), Box::new(row))
        }),
{
    lemma_exprs_value(cx, env, None, over.partition, k);
    lemma_window_keys(cx, env, over.orders, k);
}

proof fn lemma_window_rows(
    cx: CxModel,
    env: Env,
    fs: Fields,
    over: Over,
    rows: Seq<Tuple>,
    i: int,
    acc: Seq<Keyed>,
)
    requires
        0 <= i <= rows.len(),
        acc.len() == i,
        forall|k: int|
            0 <= k < i ==> eval::window_row(
                cx,
                Env::Frame(&fs, &rows[k], &env),
                over,
                rows[k],
            ) == Ok::<Keyed, Fault>(#[trigger] acc[k]),
    ensures
        eval::window_rows(cx, env, fs, over, rows, i, acc) matches Ok(ks) ==> {
            &&& ks.len() == rows.len()
            &&& forall|k: int|
                0 <= k < rows.len() ==> eval::window_row(
                    cx,
                    Env::Frame(&fs, &rows[k], &env),
                    over,
                    rows[k],
                ) == Ok::<Keyed, Fault>(#[trigger] ks[k])
        },
    decreases rows.len() - i,
{
    if i < rows.len() {
        if let Ok(k) = eval::window_row(cx, Env::Frame(&fs, &rows[i], &env), over, rows[i]) {
            lemma_window_rows(cx, env, fs, over, rows, i + 1, acc.push(k));
        }
    }
}

/// A window function has the value that it has for the row among all rows of the query
/// block, each as the window sees it.
pub proof fn law_window_expression(
    cx: CxModel,
    fs: Fields,
    row: Tuple,
    outer: Env,
    rows: Seq<Tuple>,
    f: WindowFn,
    n: usize,
    over: Box<Over>,
)
    requires
        eval::expr_value(
            cx,
            Env::Frame(&fs, &row, &outer),
            Some(rows),
            Expr::Window(f, n, over),
        ) is Ok,
    ensures
        exists|me: Keyed, ks: Seq<Keyed>|
            {
                &&& eval::expr_value(
                    cx,
                    Env::Frame(&fs, &row, &outer),
                    Some(rows),
                    Expr::Window(f, n, over),
                ) == #[trigger] window::window_value(cx.symbols, f, over.orders, me, ks)
                &&& eval::window_row(cx, Env::Frame(&fs, &row, &outer), *over, row) == Ok::<
                    Keyed,
                    Fault,
                >(me)
                &&& ks.len() == rows.len()
                &&& forall|k: int|
                    0 <= k < rows.len() ==> eval::window_row(
                        cx,
                        Env::Frame(&fs, &rows[k], &outer),
                        *over,
                        rows[k],
                    ) == Ok::<Keyed, Fault>(#[trigger] ks[k])
            },
{
    let me = eval::window_row(cx, Env::Frame(&fs, &row, &outer), *over, row)->Ok_0;
    let ks = eval::window_rows(cx, outer, fs, *over, rows, 0, Seq::empty())->Ok_0;
    lemma_window_rows(cx, outer, fs, *over, rows, 0, Seq::empty());
    assert(eval::expr_value(
        cx,
        Env::Frame(&fs, &row, &outer),
        Some(rows),
        Expr::Window(f, n, over),
    ) == window::window_value(cx.symbols, f, over.orders, me, ks));
}

proof fn lemma_row_outputs(
    cx: CxModel,
    env: Env,
    fs: Fields,
    group: Option<Seq<Tuple>>,
    outs: Fields,
    s: Select,
    rows: Seq<Tuple>,
    i: int,
    acc: Seq<Keyed>,
)
    requires
        0 <= i <= rows.len(),
        acc.len() == i,
        forall|k: int|
            0 <= k < i ==> eval::block_output(
                cx,
                Env::Frame(&fs, &rows[k], &env),
                group,
                outs,
                s,
            ) == Ok::<Keyed, Fault>(#[trigger] acc[k]),
    ensures
        eval::row_outputs(cx, env, fs, group, outs, s, rows, i, acc) matches Ok(ks) ==> {
            &&& ks.len() == rows.len()
            &&& forall|k: int|
                0 <= k < rows.len() ==> eval::block_output(
                    cx,
                    Env::Frame(&fs, &rows[k], &env),
                    group,
                    outs,
                    s,
                ) == Ok::<Keyed, Fault>(#[trigger] ks[k])
        },
    decreases rows.len() - i,
{
    if i < rows.len() {
        if let Ok(k) = eval::block_output(
            cx,
            Env::Frame(&fs, &rows[i], &env),
            group,
            outs,
            s,
        ) {
            lemma_row_outputs(cx, env, fs, group, outs, s, rows, i + 1, acc.push(k));
        }
    }
}

/// A query block that is not grouped has one result for each row of its source of which its
/// condition is true, in their order; with window functions every row has its number behind
/// its cells and all of them are the rows of the windows.
pub proof fn law_plain_block(cx: CxModel, env: Env, s: Select)
    requires
        !analyze::is_grouped(s),
        eval::block_rows(cx, env, s) is Ok,
    ensures
        ({
            let ks = eval::block_rows(cx, env, s)->Ok_0;
            let rel = eval::source_rel(cx, env, s.source)->Ok_0;
            let here = Env::Frame(&rel.fields, &Tuple::Nil, &env);
            let outs = analyze::items_fields(cx, here, rel.fields, s.items)->Ok_0;
            let kept = rel.rows.filter(meaning::condition(cx, env, rel.fields, s.filter));
            let rows = if analyze::windowed(s) {
                window::numbered(kept)
            } else {
                kept
            };
            let group = if analyze::windowed(s) {
                Some(rows)
            } else {
                None
            };
            &&& eval::source_rel(cx, env, s.source) is Ok
            &&& ks.len() == kept.len()
            &&& forall|k: int|
                0 <= k < rows.len() ==> eval::block_output(
                    cx,
                    Env::Frame(&rel.fields, &rows[k], &env),
                    group,
                    outs,
                    s,
                ) == Ok::<Keyed, Fault>(#[trigger] ks[k])
        }),
{
    let rel = eval::source_rel(cx, env, s.source)->Ok_0;
    let here = Env::Frame(&rel.fields, &Tuple::Nil, &env);
    let outs = analyze::items_fields(cx, here, rel.fields, s.items)->Ok_0;
    assert(analyze::needs_rows(s));
    meaning::law_where(cx, env, rel.fields, s.filter, rel.rows);
    let kept = rel.rows.filter(meaning::condition(cx, env, rel.fields, s.filter));
    assert(eval::filtered(cx, env, s, rel) == Ok::<Seq<Tuple>, Fault>(kept));
    let none = Seq::<Keyed>::empty();
    if analyze::windowed(s) {
        let all = window::numbered(kept);
        lemma_row_outputs(cx, env, rel.fields, Some(all), outs, s, all, 0, none);
    } else {
        lemma_row_outputs(cx, env, rel.fields, None, outs, s, kept, 0, none);
    }
}

/// A grouped query block makes its groups of the rows of its source of which its condition
/// is true, unless its result does not depend on rows.
pub proof fn law_grouped_source(cx: CxModel, env: Env, s: Select)
    requires
        analyze::is_grouped(s),
        analyze::needs_rows(s),
        eval::block_rows(cx, env, s) is Ok,
    ensures
        ({
            let rel = eval::source_rel(cx, env, s.source)->Ok_0;
            let here = Env::Frame(&rel.fields, &Tuple::Nil, &env);
            let outs = analyze::items_fields(cx, here, rel.fields, s.items)->Ok_0;
            let kept = rel.rows.filter(meaning::condition(cx, env, rel.fields, s.filter));
            let ks = eval::key_rows(cx, env, rel.fields, s.group, kept, 0, Seq::empty());
            &&& eval::source_rel(cx, env, s.source) is Ok
            &&& ks is Ok
            &&& eval::block_rows(cx, env, s) == eval::group_outputs(
                cx,
                env,
                rel.fields,
                outs,
                s,
                ks->Ok_0,
                eval::group_heads(s, ks->Ok_0),
                0,
                Seq::empty(),
            )
        }),
{
    let rel = eval::source_rel(cx, env, s.source)->Ok_0;
    meaning::law_where(cx, env, rel.fields, s.filter, rel.rows);
    let kept = rel.rows.filter(meaning::condition(cx, env, rel.fields, s.filter));
    assert(eval::filtered(cx, env, s, rel) == Ok::<Seq<Tuple>, Fault>(kept));
}

/// How many entries a select list has.
pub open spec fn items_len(items: Items) -> nat
    decreases items,
{
    match items {
        Items::Nil => 0,
        Items::Cons(_, rest) => 1 + items_len(*rest),
    }
}

/// The entry of a select list at place `k`.
pub open spec fn item_at(items: Items, k: int) -> Item
    decreases items,
{
    match items {
        Items::Nil => Item::Star,
        Items::Cons(item, rest) => if k == 0 {
            item
        } else {
            item_at(*rest, k - 1)
        },
    }
}

/// Whether all entries of a select list are expressions.
pub open spec fn all_expressions(items: Items) -> bool {
    forall|k: int| 0 <= k < items_len(items) ==> #[trigger] item_at(items, k) is Expr
}

/// A select list of expressions has one cell for each, and the cell is its value.
pub proof fn law_select_list(
    cx: CxModel,
    env: Env,
    group: Option<Seq<Tuple>>,
    items: Items,
    k: int,
)
    requires
        all_expressions(items),
        eval::items_value(cx, env, group, items) is Ok,
        0 <= k < items_len(items),
    ensures
        ({
            let cells = eval::items_value(cx, env, group, items)->Ok_0;
            &&& datum::tuple_len(cells) == items_len(items)
            &&& item_at(items, k) matches Item::Expr(e, _) && conditions::is_worth(
                cx,
                env,
                group,
                *e,
                datum::cell(cells, k as nat),
            )
        }),
    decreases items,
{
    lemma_select_list(cx, env, group, items, k);
}

proof fn lemma_select_list(
    cx: CxModel,
    env: Env,
    group: Option<Seq<Tuple>>,
    items: Items,
    k: int,
)
    requires
        all_expressions(items),
        eval::items_value(cx, env, group, items) is Ok,
    ensures
        ({
            let cells = eval::items_value(cx, env, group, items)->Ok_0;
            &&& datum::tuple_len(cells) == items_len(items)
            &&& 0 <= k < items_len(items) ==> (item_at(items, k) matches Item::Expr(e, _)
                && conditions::is_worth(cx, env, group, *e, datum::cell(cells, k as nat)))
        }),
    decreases items,
{
    if let Items::Cons(item, rest) = items {
        assert(item_at(items, 0) == item);
        assert forall|j: int| 0 <= j < items_len(*rest) implies #[trigger] item_at(
            *rest,
            j,
        ) is Expr by {
            assert(item_at(items, j + 1) == item_at(*rest, j));
        }
        lemma_select_list(cx, env, group, *rest, k - 1);
        let first = eval::item_value(cx, env, group, item)->Ok_0;
        let more = eval::items_value(cx, env, group, *rest)->Ok_0;
        reveal_with_fuel(datum::tuple_len, 2);
        assert(datum::tuple_len(first) == 1);
        if k >= 0 {
            lemma_append_cells(first, more, k as nat);
        } else {
            lemma_append_cells(first, more, 0);
        }
        if k > 0 {
            assert(item_at(items, k) == item_at(*rest, k - 1));
        }
    }
}

/// `*` stands for the visible cells of a row, and `t.*` for those of one relation: they leave
/// out or keep each cell by its own column, and keep their order.
pub proof fn law_stars(a: Fields, p: Tuple, b: Fields, q: Tuple, f: Field, d: Datum, t: usize)
    requires
        fields::fields_len(a) == datum::tuple_len(p),
    ensures
        fields::visible(fields::fields_append(a, b), datum::tuple_append(p, q))
            == datum::tuple_append(fields::visible(a, p), fields::visible(b, q)),
        fields::cells_of(fields::fields_append(a, b), datum::tuple_append(p, q), t)
            == datum::tuple_append(fields::cells_of(a, p, t), fields::cells_of(b, q, t)),
        fields::visible(
            Fields::Cons(f, Box::new(Fields::Nil)),
            Tuple::Cons(d, Box::new(Tuple::Nil)),
        ) == if f.hidden {
            Tuple::Nil
        } else {
            Tuple::Cons(d, Box::new(Tuple::Nil))
        },
        fields::cells_of(
            Fields::Cons(f, Box::new(Fields::Nil)),
            Tuple::Cons(d, Box::new(Tuple::Nil)),
            t,
        ) == if f.qualifier == Some(t) {
            Tuple::Cons(d, Box::new(Tuple::Nil))
        } else {
            Tuple::Nil
        },
    decreases a,
{
    reveal_with_fuel(fields::visible, 2);
    reveal_with_fuel(fields::cells_of, 2);
    if let (Fields::Cons(_, more), Tuple::Cons(_, rest)) = (a, p) {
        law_stars(*more, *rest, b, q, f, d, t);
    }
}

/// What `*` and `t.*` stand for in a select list.
pub proof fn law_star_items(
    cx: CxModel,
    fs: Fields,
    row: Tuple,
    outer: Env,
    group: Option<Seq<Tuple>>,
    t: usize,
)
    ensures
        eval::item_value(cx, Env::Frame(&fs, &row, &outer), group, Item::Star) == Ok::<
            Tuple,
            Fault,
        >(fields::visible(fs, row)),
        eval::item_value(cx, Env::Frame(&fs, &row, &outer), group, Item::TableStar(t)) == Ok::<
            Tuple,
            Fault,
        >(fields::cells_of(fs, row, t)),
{
}

/// A parameter has the value that was given at its place, counted from one.
pub proof fn law_parameter(
    cx: CxModel,
    env: Env,
    group: Option<Seq<Tuple>>,
    values: Tuple,
    k: u64,
)
    requires
        cx.params == Params::Given(values),
    ensures
        1 <= k <= datum::tuple_len(values) ==> conditions::is_worth(
            cx,
            env,
            group,
            Expr::Param(k),
            datum::cell(values, (k - 1) as nat),
        ),
        !(1 <= k <= datum::tuple_len(values)) ==> eval::expr_value(
            cx,
            env,
            group,
            Expr::Param(k),
        ) == Err::<Datum, Fault>(Fault::Parameter),
{
    lemma_param(values, k);
}

proof fn lemma_param(values: Tuple, k: u64)
    ensures
        analyze::param_value(values, k) == if 1 <= k <= datum::tuple_len(values) {
            Some(datum::cell(values, (k - 1) as nat))
        } else {
            None
        },
    decreases values,
{
    if let Tuple::Cons(_, rest) = values {
        if k > 1 {
            lemma_param(*rest, (k - 1) as u64);
        }
    }
}

} // verus!
