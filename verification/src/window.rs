//! Functions of the rows around a row.
//!
//! The window of a row is the rows that share its partition, in the order of the
//! window; rows that the order does not tell apart stay as they were. An aggregate
//! takes its values from the rows of the window up to the row and those that the
//! order does not tell from it.

use vstd::prelude::*;
use crate::ast::AggFn;
use crate::ast::Orders;
use crate::ast::WindowFn;
use crate::datum;
use crate::datum::Datum;
use crate::datum::Rank;
use crate::datum::Tuple;
use crate::eval;
use crate::fault::Fault;
use crate::relation;
use crate::relation::Keyed;
use crate::symbols::Symbols;

verus! {

/// A row with its number behind its cells, which tells it from every other row.
pub open spec fn with_number(row: Tuple, i: int) -> Tuple {
    datum::tuple_append(row, Tuple::Cons(Datum::Big(i as i64), Box::new(Tuple::Nil)))
}

/// The rows with their numbers behind their cells.
pub open spec fn numbered(rows: Seq<Tuple>) -> Seq<Tuple> {
    Seq::new(rows.len(), |i: int| with_number(rows[i], i))
}

/// The rows that share the values `on`.
pub open spec fn partition(ks: Seq<Keyed>, on: Tuple) -> Seq<Keyed>
    decreases ks.len(),
{
    if ks.len() == 0 {
        Seq::empty()
    } else {
        let before = partition(ks.drop_last(), on);
        if ks.last().on == on {
            before.push(ks.last())
        } else {
            before
        }
    }
}

/// The rows that the order puts before the given keys and, with `peers`, those that it
/// does not tell from them.
pub open spec fn within(
    t: Seq<Seq<char>>,
    os: Orders,
    ks: Seq<Keyed>,
    keys: Tuple,
    peers: bool,
) -> Seq<Keyed>
    decreases ks.len(),
{
    if ks.len() == 0 {
        Seq::empty()
    } else {
        let before = within(t, os, ks.drop_last(), keys, peers);
        let r = relation::rank_keys(t, os, ks.last().keys, keys);
        if r == Rank::Less || (peers && r == Rank::Same) {
            before.push(ks.last())
        } else {
            before
        }
    }
}

/// The first place, from `i` on, of what stands for a row.
pub open spec fn place(ks: Seq<Keyed>, out: Tuple, i: int) -> int
    decreases ks.len() - i,
{
    if i < 0 || i >= ks.len() || ks[i].out == out {
        i
    } else {
        place(ks, out, i + 1)
    }
}

/// The argument of the function for the row at a place, or null if there is none.
pub open spec fn argument_at(ks: Seq<Keyed>, i: int) -> Datum {
    if 0 <= i < ks.len() {
        datum::cell(ks[i].out, 0)
    } else {
        Datum::Null
    }
}

/// The arguments of the function for the rows that have one.
pub open spec fn arguments(ks: Seq<Keyed>) -> Seq<Datum>
    decreases ks.len(),
{
    if ks.len() == 0 {
        Seq::empty()
    } else {
        let before = arguments(ks.drop_last());
        let d = datum::cell(ks.last().out, 0);
        if d == Datum::Null {
            before
        } else {
            before.push(d)
        }
    }
}

/// The value of a window function for the row `me` among the rows `all`.
pub open spec fn window_value(
    t: Seq<Seq<char>>,
    f: WindowFn,
    os: Orders,
    me: Keyed,
    all: Seq<Keyed>,
) -> Result<Datum, Fault> {
    let ks = relation::sorted(t, os, partition(all, me.on));
    let i = place(ks, me.out, 0);
    match f {
        WindowFn::RowNumber => Ok(Datum::Big((i + 1) as i64)),
        WindowFn::Rank => Ok(
            Datum::Big((within(t, os, ks, me.keys, false).len() + 1) as i64),
        ),
        WindowFn::Lag => Ok(argument_at(ks, i - 1)),
        WindowFn::Lead => Ok(argument_at(ks, i + 1)),
        WindowFn::Rows => Ok(Datum::Big(within(t, os, ks, me.keys, true).len() as i64)),
        WindowFn::Agg(a) => eval::aggregate(
            t,
            a,
            false,
            arguments(within(t, os, ks, me.keys, true)),
        ),
    }
}

/// The rows with their numbers behind their cells.
pub fn number(rows: &Vec<Tuple>) -> (r: Vec<Tuple>)
    ensures
        r@ == numbered(rows@),
{
    let mut r: Vec<Tuple> = Vec::new();
    let mut i: usize = 0;
    while i < rows.len()
        invariant
            i <= rows.len(),
            r@ == numbered(rows@).take(i as int),
        decreases rows.len() - i,
    {
        let n: Tuple = Tuple::Cons(Datum::Big(i as i64), Box::new(Tuple::Nil));
        r.push(rows[i].append(&n));
        i += 1;
        proof {
            assert(r@ =~= numbered(rows@).take(i as int));
        }
    }
    proof {
        assert(numbered(rows@).take(i as int) =~= numbered(rows@));
    }
    r
}

fn members(ks: &Vec<Keyed>, on: &Tuple) -> (r: Vec<Keyed>)
    ensures
        r@ == partition(ks@, *on),
{
    let mut r: Vec<Keyed> = Vec::new();
    let mut i: usize = 0;
    while i < ks.len()
        invariant
            i <= ks.len(),
            r@ == partition(ks@.take(i as int), *on),
        decreases ks.len() - i,
    {
        proof {
            assert(ks@.take(i + 1).drop_last() =~= ks@.take(i as int));
        }
        if ks[i].on.same(on) {
            r.push(ks[i].copy());
        }
        i += 1;
    }
    proof {
        assert(ks@.take(i as int) =~= ks@);
    }
    r
}

fn frame(t: &Symbols, os: &Orders, ks: &Vec<Keyed>, keys: &Tuple, peers: bool) -> (r: Vec<Keyed>)
    ensures
        r@ == within(t@, *os, ks@, *keys, peers),
        r.len() <= ks.len(),
{
    let mut r: Vec<Keyed> = Vec::new();
    let mut i: usize = 0;
    while i < ks.len()
        invariant
            i <= ks.len(),
            r.len() <= i,
            r@ == within(t@, *os, ks@.take(i as int), *keys, peers),
        decreases ks.len() - i,
    {
        proof {
            assert(ks@.take(i + 1).drop_last() =~= ks@.take(i as int));
        }
        let rank: Rank = relation::rank_of_keys(t, os, &ks[i].keys, keys);
        if rank == Rank::Less || (peers && rank == Rank::Same) {
            r.push(ks[i].copy());
        }
        i += 1;
    }
    proof {
        assert(ks@.take(i as int) =~= ks@);
    }
    r
}

fn find(ks: &Vec<Keyed>, out: &Tuple) -> (r: usize)
    ensures
        r == place(ks@, *out, 0),
        r <= ks.len(),
{
    let mut i: usize = 0;
    while i < ks.len() && !ks[i].out.same(out)
        invariant
            i <= ks.len(),
            place(ks@, *out, 0) == place(ks@, *out, i as int),
        decreases ks.len() - i,
    {
        i += 1;
    }
    i
}

fn values(ks: &Vec<Keyed>) -> (r: Vec<Datum>)
    ensures
        r@ == arguments(ks@),
{
    let mut r: Vec<Datum> = Vec::new();
    let mut i: usize = 0;
    while i < ks.len()
        invariant
            i <= ks.len(),
            r@ == arguments(ks@.take(i as int)),
        decreases ks.len() - i,
    {
        proof {
            assert(ks@.take(i + 1).drop_last() =~= ks@.take(i as int));
        }
        let d: Datum = ks[i].out.cell_at(0);
        if d != Datum::Null {
            r.push(d);
        }
        i += 1;
    }
    proof {
        assert(ks@.take(i as int) =~= ks@);
    }
    r
}

/// The value of a window function for the row `me` among the rows `all`.
pub fn value(t: &Symbols, f: WindowFn, os: &Orders, me: &Keyed, all: &Vec<Keyed>) -> (r: Result<
    Datum,
    Fault,
>)
    ensures
        r == window_value(t@, f, *os, *me, all@),
{
    let part: Vec<Keyed> = members(all, &me.on);
    let ks: Vec<Keyed> = relation::sort(t, os, &part);
    let i: usize = find(&ks, &me.out);
    match f {
        WindowFn::RowNumber => Ok(Datum::Big((i as u128 + 1) as i64)),
        WindowFn::Rank => {
            let n: usize = frame(t, os, &ks, &me.keys, false).len();
            Ok(Datum::Big((n as u128 + 1) as i64))
        },
        WindowFn::Lag => if 0 < i {
            Ok(ks[i - 1].out.cell_at(0))
        } else {
            Ok(Datum::Null)
        },
        WindowFn::Lead => if i < ks.len() && i + 1 < ks.len() {
            Ok(ks[i + 1].out.cell_at(0))
        } else {
            Ok(Datum::Null)
        },
        WindowFn::Rows => {
            let n: usize = frame(t, os, &ks, &me.keys, true).len();
            Ok(Datum::Big(n as i64))
        },
        WindowFn::Agg(a) => {
            let rows: Vec<Keyed> = frame(t, os, &ks, &me.keys, true);
            let vs: Vec<Datum> = values(&rows);
            eval::eval_aggregate(t, a, false, &vs)
        },
    }
}

proof fn lemma_no_order(t: Seq<Seq<char>>, ks: Seq<Keyed>, keys: Tuple)
    ensures
        within(t, Orders::Nil, ks, keys, true) == ks,
        relation::sorted(t, Orders::Nil, ks) == ks,
    decreases ks.len(),
{
    if ks.len() > 0 {
        lemma_no_order(t, ks.drop_last(), keys);
        let before = ks.drop_last();
        assert(before.push(ks.last()) =~= ks);
        if before.len() > 0 {
            assert(relation::rank_keys(t, Orders::Nil, before.last().keys, ks.last().keys)
                == Rank::Same);
        }
    }
}

proof fn lemma_partition(ks: Seq<Keyed>, me: Keyed)
    requires
        ks.contains(me),
    ensures
        partition(ks, me.on).contains(me),
    decreases ks.len(),
{
    let j = choose|j: int| 0 <= j < ks.len() && ks[j] == me;
    let before = ks.drop_last();
    let rest = partition(before, me.on);
    let after = partition(ks, me.on);
    if j == ks.len() - 1 {
        assert(after.last() == me);
        assert(after[after.len() - 1] == me);
    } else {
        assert(before[j] == me);
        lemma_partition(before, me);
        let i = choose|i: int| 0 <= i < rest.len() && rest[i] == me;
        assert(after[i] == me);
    }
}

proof fn lemma_place(ks: Seq<Keyed>, me: Keyed, from: int)
    requires
        0 <= from <= ks.len(),
        exists|j: int| from <= j < ks.len() && ks[j] == me,
    ensures
        from <= place(ks, me.out, from) < ks.len(),
        ks[place(ks, me.out, from)].out == me.out,
    decreases ks.len() - from,
{
    if ks[from].out != me.out {
        let j = choose|j: int| from <= j < ks.len() && ks[j] == me;
        assert(from + 1 <= j);
        lemma_place(ks, me, from + 1);
    }
}

/// The number of a row is that of a place in its window, counted from one, and the row
/// is at that place.
pub proof fn law_row_number_is_a_place(
    t: Seq<Seq<char>>,
    os: Orders,
    me: Keyed,
    all: Seq<Keyed>,
)
    requires
        all.contains(me),
    ensures
        ({
            let ks = relation::sorted(t, os, partition(all, me.on));
            let i = place(ks, me.out, 0);
            &&& 0 <= i < partition(all, me.on).len()
            &&& ks[i].out == me.out
            &&& window_value(t, WindowFn::RowNumber, os, me, all) == Ok::<Datum, Fault>(
                Datum::Big((i + 1) as i64),
            )
        }),
{
    let part = partition(all, me.on);
    let ks = relation::sorted(t, os, part);
    lemma_partition(all, me);
    relation::lemma_sorted_members(t, os, part);
    part.to_multiset_ensures();
    ks.to_multiset_ensures();
    assert(ks.to_multiset().count(me) > 0);
    assert(ks.contains(me));
    lemma_place(ks, me, 0);
}

/// Over a window without an order, an aggregate is the aggregate of the partition: it
/// has one value for all rows that share it.
pub proof fn law_window_without_an_order(
    t: Seq<Seq<char>>,
    a: AggFn,
    me: Keyed,
    all: Seq<Keyed>,
)
    ensures
        window_value(t, WindowFn::Agg(a), Orders::Nil, me, all) == eval::aggregate(
            t,
            a,
            false,
            arguments(partition(all, me.on)),
        ),
{
    lemma_no_order(t, partition(all, me.on), me.keys);
}

/// The rows that share the values `on`, as a condition.
pub open spec fn shares(on: Tuple) -> spec_fn(Keyed) -> bool {
    |k: Keyed| k.on == on
}

/// The rows that the order puts before the given keys and, with `peers`, those that it does
/// not tell from them, as a condition.
pub open spec fn comes_up_to(t: Seq<Seq<char>>, os: Orders, keys: Tuple, peers: bool) -> spec_fn(
    Keyed,
) -> bool {
    |k: Keyed|
        relation::rank_keys(t, os, k.keys, keys) is Less || (peers && relation::rank_keys(
            t,
            os,
            k.keys,
            keys,
        ) is Same)
}

/// The rows that share the partition of `me` and stand before it or, with `peers`, beside
/// it, as a condition.
pub open spec fn ahead_of(t: Seq<Seq<char>>, os: Orders, me: Keyed, peers: bool) -> spec_fn(
    Keyed,
) -> bool {
    |k: Keyed|
        k.on == me.on && (relation::rank_keys(t, os, k.keys, me.keys) is Less || (peers
            && relation::rank_keys(t, os, k.keys, me.keys) is Same))
}

proof fn lemma_partition_filter(ks: Seq<Keyed>, on: Tuple)
    ensures
        partition(ks, on) == ks.filter(shares(on)),
    decreases ks.len(),
{
    reveal(Seq::filter);
    if ks.len() > 0 {
        lemma_partition_filter(ks.drop_last(), on);
    }
}

proof fn lemma_within_filter(
    t: Seq<Seq<char>>,
    os: Orders,
    ks: Seq<Keyed>,
    keys: Tuple,
    peers: bool,
)
    ensures
        within(t, os, ks, keys, peers) == ks.filter(comes_up_to(t, os, keys, peers)),
    decreases ks.len(),
{
    reveal(Seq::filter);
    if ks.len() > 0 {
        lemma_within_filter(t, os, ks.drop_last(), keys, peers);
    }
}

proof fn lemma_filter_twice(t: Seq<Seq<char>>, os: Orders, ks: Seq<Keyed>, me: Keyed, peers: bool)
    ensures
        ks.filter(shares(me.on)).filter(comes_up_to(t, os, me.keys, peers)) == ks.filter(
            ahead_of(t, os, me, peers),
        ),
    decreases ks.len(),
{
    reveal(Seq::filter);
    if ks.len() > 0 {
        let before = ks.drop_last();
        lemma_filter_twice(t, os, before, me, peers);
        if ks.last().on == me.on {
            let part = before.filter(shares(me.on));
            assert(part.push(ks.last()).drop_last() =~= part);
        }
    }
}

proof fn lemma_filter_push(s: Seq<Keyed>, x: Keyed, p: spec_fn(Keyed) -> bool)
    ensures
        s.push(x).filter(p) == if p(x) {
            s.filter(p).push(x)
        } else {
            s.filter(p)
        },
{
    reveal(Seq::filter);
    assert(s.push(x).drop_last() =~= s);
}

proof fn lemma_insert_filter(
    t: Seq<Seq<char>>,
    os: Orders,
    s: Seq<Keyed>,
    x: Keyed,
    p: spec_fn(Keyed) -> bool,
)
    ensures
        relation::insert_sorted(t, os, s, x).filter(p).to_multiset() == s.push(x).filter(
            p,
        ).to_multiset(),
    decreases s.len(),
{
    broadcast use vstd::seq_lib::group_to_multiset_ensures;

    if s.len() > 0 && relation::rank_keys(t, os, s.last().keys, x.keys) == Rank::More {
        let before = s.drop_last();
        let y = s.last();
        let inner = relation::insert_sorted(t, os, before, x);
        lemma_insert_filter(t, os, before, x, p);
        lemma_filter_push(inner, y, p);
        lemma_filter_push(s, x, p);
        lemma_filter_push(before, x, p);
        lemma_filter_push(before, y, p);
        assert(s =~= before.push(y));
        assert(relation::insert_sorted(t, os, s, x).filter(p).to_multiset() =~= s.push(x).filter(
            p,
        ).to_multiset());
    }
}

proof fn lemma_sorted_filter(
    t: Seq<Seq<char>>,
    os: Orders,
    ks: Seq<Keyed>,
    p: spec_fn(Keyed) -> bool,
)
    ensures
        relation::sorted(t, os, ks).filter(p).to_multiset() == ks.filter(p).to_multiset(),
    decreases ks.len(),
{
    broadcast use vstd::seq_lib::group_to_multiset_ensures;

    if ks.len() > 0 {
        let before = ks.drop_last();
        let s = relation::sorted(t, os, before);
        lemma_sorted_filter(t, os, before, p);
        lemma_insert_filter(t, os, s, ks.last(), p);
        lemma_filter_push(s, ks.last(), p);
        lemma_filter_push(before, ks.last(), p);
        assert(ks =~= before.push(ks.last()));
        assert(relation::sorted(t, os, ks).filter(p).to_multiset() =~= ks.filter(p).to_multiset());
    }
}

proof fn lemma_frame(t: Seq<Seq<char>>, os: Orders, me: Keyed, all: Seq<Keyed>, peers: bool)
    ensures
        within(
            t,
            os,
            relation::sorted(t, os, partition(all, me.on)),
            me.keys,
            peers,
        ).to_multiset() == all.filter(ahead_of(t, os, me, peers)).to_multiset(),
        within(t, os, relation::sorted(t, os, partition(all, me.on)), me.keys, peers).len()
            == all.filter(ahead_of(t, os, me, peers)).len(),
{
    broadcast use vstd::seq_lib::group_to_multiset_ensures;

    let part = partition(all, me.on);
    let ks = relation::sorted(t, os, part);
    lemma_partition_filter(all, me.on);
    lemma_within_filter(t, os, ks, me.keys, peers);
    lemma_sorted_filter(t, os, part, comes_up_to(t, os, me.keys, peers));
    lemma_filter_twice(t, os, all, me, peers);
    within(t, os, ks, me.keys, peers).to_multiset_ensures();
    all.filter(ahead_of(t, os, me, peers)).to_multiset_ensures();
}

/// RANK is one more than the number of rows that share the partition of a row and that the
/// order puts before it. COUNT(*) over a window is the number of rows that share the
/// partition and that the order does not put behind the row.
pub proof fn law_rank(t: Seq<Seq<char>>, os: Orders, me: Keyed, all: Seq<Keyed>)
    ensures
        window_value(t, WindowFn::Rank, os, me, all) == Ok::<Datum, Fault>(
            Datum::Big(
                (1 + all.filter(
                    |k: Keyed|
                        k.on == me.on && relation::rank_keys(t, os, k.keys, me.keys) is Less,
                ).len()) as i64,
            ),
        ),
        window_value(t, WindowFn::Rows, os, me, all) == Ok::<Datum, Fault>(
            Datum::Big(
                all.filter(
                    |k: Keyed|
                        k.on == me.on && !(relation::rank_keys(t, os, k.keys, me.keys) is More),
                ).len() as i64,
            ),
        ),
{
    lemma_frame(t, os, me, all, false);
    lemma_frame(t, os, me, all, true);
    assert(ahead_of(t, os, me, false) =~= (|k: Keyed|
        k.on == me.on && relation::rank_keys(t, os, k.keys, me.keys) is Less));
    assert(ahead_of(t, os, me, true) =~= (|k: Keyed|
        k.on == me.on && !(relation::rank_keys(t, os, k.keys, me.keys) is More)));
}

/// RANK does not depend on the rows of other partitions, and is at most the number of rows
/// of its own.
pub proof fn law_rank_within_partition(
    t: Seq<Seq<char>>,
    os: Orders,
    me: Keyed,
    all: Seq<Keyed>,
    other: Keyed,
)
    requires
        other.on != me.on,
        all.contains(me),
        all.len() <= i64::MAX,
    ensures
        window_value(t, WindowFn::Rank, os, me, all.push(other)) == window_value(
            t,
            WindowFn::Rank,
            os,
            me,
            all,
        ),
        window_value(t, WindowFn::Rank, os, me, all) matches Ok(Datum::Big(n)) && 1 <= n
            <= all.filter(|k: Keyed| k.on == me.on).len(),
{
    law_rank(t, os, me, all);
    law_rank(t, os, me, all.push(other));
    reveal(Seq::filter);
    assert(all.push(other).drop_last() =~= all);
    let p = ahead_of(t, os, me, false);
    assert(p =~= (|k: Keyed|
        k.on == me.on && relation::rank_keys(t, os, k.keys, me.keys) is Less));
    assert(shares(me.on) =~= (|k: Keyed| k.on == me.on));
    lemma_fewer(t, os, me, all);
}

proof fn lemma_fewer(t: Seq<Seq<char>>, os: Orders, me: Keyed, all: Seq<Keyed>)
    ensures
        all.filter(ahead_of(t, os, me, false)).len() <= all.filter(shares(me.on)).len(),
        all.contains(me) ==> all.filter(ahead_of(t, os, me, false)).len() < all.filter(
            shares(me.on),
        ).len(),
        all.filter(shares(me.on)).len() <= all.len(),
    decreases all.len(),
{
    reveal(Seq::filter);
    if all.len() > 0 {
        let before = all.drop_last();
        lemma_fewer(t, os, me, before);
        relation::lemma_rank_itself(t, os, me.keys);
        if all.contains(me) && all.last() != me {
            let i = choose|i: int| 0 <= i < all.len() && all[i] == me;
            assert(before[i] == me);
        }
    }
}

/// The arguments of rows that are not null.
pub open spec fn given_arguments(ks: Seq<Keyed>) -> Seq<Datum> {
    ks.map_values(|k: Keyed| datum::cell(k.out, 0)).filter(|d: Datum| d != Datum::Null)
}

proof fn lemma_arguments(ks: Seq<Keyed>)
    ensures
        arguments(ks) == given_arguments(ks),
    decreases ks.len(),
{
    reveal(Seq::filter);
    if ks.len() > 0 {
        lemma_arguments(ks.drop_last());
        let f = |k: Keyed| datum::cell(k.out, 0);
        assert(ks.map_values(f).drop_last() =~= ks.drop_last().map_values(f));
    } else {
        assert(ks.map_values(|k: Keyed| datum::cell(k.out, 0)) =~= Seq::empty());
    }
}

proof fn lemma_arguments_push(ks: Seq<Keyed>, x: Keyed)
    ensures
        arguments(ks.push(x)) == if datum::cell(x.out, 0) == Datum::Null {
            arguments(ks)
        } else {
            arguments(ks).push(datum::cell(x.out, 0))
        },
{
    assert(ks.push(x).drop_last() =~= ks);
}

/// The window of an aggregate, in the order of the window, is made of the rows ahead.
proof fn lemma_arguments_same(a: Seq<Keyed>, b: Seq<Keyed>)
    requires
        a.to_multiset() == b.to_multiset(),
    ensures
        arguments(a).to_multiset() == arguments(b).to_multiset(),
    decreases a.len(),
{
    broadcast use vstd::seq_lib::group_to_multiset_ensures;

    a.to_multiset_ensures();
    b.to_multiset_ensures();
    assert(a.len() == b.len());
    if a.len() > 0 {
        let x = a.last();
        let rest = a.drop_last();
        assert(a =~= rest.push(x));
        assert(b.to_multiset().count(x) > 0);
        assert(b.contains(x));
        let j = choose|j: int| 0 <= j < b.len() && b[j] == x;
        let less = b.remove(j);
        assert(rest.to_multiset() =~= a.to_multiset().remove(x));
        assert(less.to_multiset() =~= b.to_multiset().remove(x));
        lemma_arguments_same(rest, less);
        lemma_arguments_push(rest, x);
        lemma_arguments_remove(b, j);
        assert(arguments(a).to_multiset() =~= arguments(b).to_multiset());
    } else {
        assert(a =~= b);
    }
}

proof fn lemma_arguments_remove(b: Seq<Keyed>, j: int)
    requires
        0 <= j < b.len(),
    ensures
        ({
            let d = datum::cell(b[j].out, 0);
            let less = arguments(b.remove(j)).to_multiset();
            arguments(b).to_multiset() == if d == Datum::Null {
                less
            } else {
                less.insert(d)
            }
        }),
    decreases b.len(),
{
    broadcast use vstd::seq_lib::group_to_multiset_ensures;

    let d = datum::cell(b[j].out, 0);
    let before = b.drop_last();
    if j == b.len() - 1 {
        assert(b.remove(j) =~= before);
        assert(b =~= before.push(b[j]));
        lemma_arguments_push(before, b[j]);
    } else {
        lemma_arguments_remove(before, j);
        assert(b.remove(j) =~= before.remove(j).push(b.last()));
        assert(b =~= before.push(b.last()));
        lemma_arguments_push(before, b.last());
        lemma_arguments_push(before.remove(j), b.last());
        let less = arguments(b.remove(j)).to_multiset();
        assert(arguments(b).to_multiset() =~= if d == Datum::Null {
            less
        } else {
            less.insert(d)
        });
    }
}

/// An aggregate over a window is the aggregate of the arguments, as far as they are not
/// null, of the rows that share the partition and that the order does not put behind the
/// row: of these values, each as often as it occurs, and of no others.
pub proof fn law_window_aggregate(
    t: Seq<Seq<char>>,
    a: AggFn,
    os: Orders,
    me: Keyed,
    all: Seq<Keyed>,
)
    ensures
        exists|vs: Seq<Datum>|
            {
                &&& window_value(t, WindowFn::Agg(a), os, me, all) == #[trigger] eval::aggregate(
                    t,
                    a,
                    false,
                    vs,
                )
                &&& vs.to_multiset() == given_arguments(
                    all.filter(
                        |k: Keyed|
                            k.on == me.on && !(relation::rank_keys(t, os, k.keys, me.keys) is More),
                    ),
                ).to_multiset()
            },
{
    let ks = relation::sorted(t, os, partition(all, me.on));
    let rows = within(t, os, ks, me.keys, true);
    let p = |k: Keyed| k.on == me.on && !(relation::rank_keys(t, os, k.keys, me.keys) is More);
    lemma_frame(t, os, me, all, true);
    assert(ahead_of(t, os, me, true) =~= p);
    lemma_arguments_same(rows, all.filter(p));
    lemma_arguments(all.filter(p));
    let vs = arguments(rows);
    assert(window_value(t, WindowFn::Agg(a), os, me, all) == eval::aggregate(t, a, false, vs));
}

/// The number that ROW_NUMBER gives to a row.
pub open spec fn row_number(t: Seq<Seq<char>>, os: Orders, me: Keyed, all: Seq<Keyed>) -> int {
    match window_value(t, WindowFn::RowNumber, os, me, all) {
        Ok(Datum::Big(n)) => n as int,
        _ => 0,
    }
}

/// Whether every row is told from all others by what stands for it.
pub open spec fn are_told_apart(ks: Seq<Keyed>) -> bool {
    forall|i: int, j: int|
        0 <= i < ks.len() && 0 <= j < ks.len() && (#[trigger] ks[i]).out == (#[trigger] ks[j]).out
            ==> i == j
}

proof fn lemma_apart_counts(ks: Seq<Keyed>, x: Keyed)
    requires
        are_told_apart(ks),
    ensures
        ks.to_multiset().count(x) <= 1,
    decreases ks.len(),
{
    broadcast use vstd::seq_lib::group_to_multiset_ensures;

    if ks.len() > 0 {
        let before = ks.drop_last();
        assert forall|i: int, j: int|
            0 <= i < before.len() && 0 <= j < before.len() && (#[trigger] before[i]).out == (
            #[trigger] before[j]).out implies i == j by {
            assert(before[i] == ks[i] && before[j] == ks[j]);
        }
        lemma_apart_counts(before, x);
        assert(ks =~= before.push(ks.last()));
        if before.to_multiset().count(x) > 0 && ks.last() == x {
            assert(before.contains(x));
            let i = choose|i: int| 0 <= i < before.len() && before[i] == x;
            assert(ks[i].out == ks[ks.len() - 1].out);
        }
    }
}

proof fn lemma_window_members(
    t: Seq<Seq<char>>,
    os: Orders,
    all: Seq<Keyed>,
    on: Tuple,
    x: Keyed,
)
    ensures
        relation::sorted(t, os, partition(all, on)).contains(x) <==> all.contains(x) && x.on == on,
        relation::sorted(t, os, partition(all, on)).len() == all.filter(shares(on)).len(),
{
    let part = partition(all, on);
    let ks = relation::sorted(t, os, part);
    relation::lemma_sorted_members(t, os, part);
    lemma_partition_filter(all, on);
    part.to_multiset_ensures();
    ks.to_multiset_ensures();
    if part.contains(x) {
        all.lemma_filter_contains_rev(shares(on), x);
        assert(part.to_multiset().count(x) > 0);
        assert(ks.contains(x));
        let i = choose|i: int| 0 <= i < part.len() && part[i] == x;
        all.lemma_filter_pred(shares(on), i);
    }
    if ks.contains(x) {
        assert(ks.to_multiset().count(x) > 0);
        assert(part.contains(x));
    }
    if all.contains(x) && x.on == on {
        let i = choose|i: int| 0 <= i < all.len() && all[i] == x;
        all.lemma_filter_contains(shares(on), i);
    }
}

proof fn lemma_window_apart(t: Seq<Seq<char>>, os: Orders, all: Seq<Keyed>, on: Tuple)
    requires
        are_told_apart(all),
    ensures
        are_told_apart(relation::sorted(t, os, partition(all, on))),
{
    let part = partition(all, on);
    let ks = relation::sorted(t, os, part);
    relation::lemma_sorted_members(t, os, part);
    lemma_partition_apart(all, on);
    ks.to_multiset_ensures();
    assert forall|i: int, j: int|
        0 <= i < ks.len() && 0 <= j < ks.len() && (#[trigger] ks[i]).out == (
        #[trigger] ks[j]).out implies i == j by {
        assert(ks.contains(ks[i]) && ks.contains(ks[j]));
        lemma_window_members(t, os, all, on, ks[i]);
        lemma_window_members(t, os, all, on, ks[j]);
        let a = choose|a: int| 0 <= a < all.len() && all[a] == ks[i];
        let b = choose|b: int| 0 <= b < all.len() && all[b] == ks[j];
        assert(all[a].out == all[b].out);
        assert(ks[i] == ks[j]);
        lemma_apart_counts(part, ks[i]);
        if i != j {
            lemma_two_places(ks, i, j);
        }
    }
}

proof fn lemma_two_places(ks: Seq<Keyed>, i: int, j: int)
    requires
        0 <= i < ks.len(),
        0 <= j < ks.len(),
        i != j,
        ks[i] == ks[j],
    ensures
        ks.to_multiset().count(ks[i]) >= 2,
{
    broadcast use vstd::seq_lib::group_to_multiset_ensures;

    let rest = ks.remove(i);
    let k = if j < i {
        j
    } else {
        j - 1
    };
    assert(rest[k] == ks[i]);
    assert(rest.contains(ks[i]));
    assert(rest.to_multiset().count(ks[i]) > 0);
    assert(rest.to_multiset() =~= ks.to_multiset().remove(ks[i]));
}

proof fn lemma_partition_apart(all: Seq<Keyed>, on: Tuple)
    requires
        are_told_apart(all),
    ensures
        are_told_apart(partition(all, on)),
    decreases all.len(),
{
    if all.len() > 0 {
        let before = all.drop_last();
        assert forall|i: int, j: int|
            0 <= i < before.len() && 0 <= j < before.len() && (#[trigger] before[i]).out == (
            #[trigger] before[j]).out implies i == j by {
            assert(before[i] == all[i] && before[j] == all[j]);
        }
        lemma_partition_apart(before, on);
        let part = partition(before, on);
        let whole = partition(all, on);
        assert forall|i: int, j: int|
            0 <= i < whole.len() && 0 <= j < whole.len() && (#[trigger] whole[i]).out == (
            #[trigger] whole[j]).out implies i == j by {
            if i < part.len() && j < part.len() {
                assert(whole[i] == part[i] && whole[j] == part[j]);
            } else if i != j {
                let k = if i < part.len() {
                    i
                } else {
                    j
                };
                assert(whole[k] == part[k]);
                lemma_from_partition(before, on, k);
                let m = choose|m: int| 0 <= m < before.len() && before[m] == part[k];
                assert(all[m].out == all[all.len() - 1].out);
            }
        }
    }
}

proof fn lemma_from_partition(ks: Seq<Keyed>, on: Tuple, k: int)
    requires
        0 <= k < partition(ks, on).len(),
    ensures
        ks.contains(partition(ks, on)[k]),
{
    lemma_partition_filter(ks, on);
    let x = partition(ks, on)[k];
    assert(ks.filter(shares(on)).contains(x));
    ks.lemma_filter_contains_rev(shares(on), x);
}

proof fn lemma_place_of(ks: Seq<Keyed>, k: int, from: int)
    requires
        are_told_apart(ks),
        0 <= from <= k < ks.len(),
    ensures
        place(ks, ks[k].out, from) == k,
    decreases k - from,
{
    if from < k {
        assert(ks[from].out != ks[k].out);
        lemma_place_of(ks, k, from + 1);
    }
}

proof fn lemma_row_number(t: Seq<Seq<char>>, os: Orders, me: Keyed, all: Seq<Keyed>)
    requires
        are_told_apart(all),
        all.contains(me),
        all.len() < i64::MAX,
    ensures
        ({
            let ks = relation::sorted(t, os, partition(all, me.on));
            let n = row_number(t, os, me, all);
            &&& 1 <= n <= ks.len()
            &&& ks[n - 1] == me
            &&& place(ks, me.out, 0) == n - 1
            &&& are_told_apart(ks)
            &&& ks.len() == all.filter(shares(me.on)).len()
        }),
{
    let ks = relation::sorted(t, os, partition(all, me.on));
    lemma_window_members(t, os, all, me.on, me);
    lemma_window_apart(t, os, all, me.on);
    let k = choose|k: int| 0 <= k < ks.len() && ks[k] == me;
    lemma_place_of(ks, k, 0);
    lemma_fewer(t, os, me, all);
}

/// The rows of a partition are numbered from one to their number, each once, and a row that
/// the order puts before another has the smaller number.
pub proof fn law_row_numbers(
    t: Seq<Seq<char>>,
    os: Orders,
    a: Keyed,
    b: Keyed,
    all: Seq<Keyed>,
)
    requires
        are_told_apart(all),
        relation::keys_fit(os, all),
        all.contains(a),
        all.contains(b),
        a.on == b.on,
        all.len() < i64::MAX,
    ensures
        1 <= row_number(t, os, a, all) <= all.filter(|k: Keyed| k.on == a.on).len(),
        row_number(t, os, a, all) == row_number(t, os, b, all) ==> a == b,
        relation::rank_keys(t, os, a.keys, b.keys) is Less ==> row_number(t, os, a, all)
            < row_number(t, os, b, all),
{
    assert(shares(a.on) =~= (|k: Keyed| k.on == a.on));
    lemma_row_number(t, os, a, all);
    lemma_row_number(t, os, b, all);
    let part = partition(all, a.on);
    let ks = relation::sorted(t, os, part);
    assert forall|i: int| 0 <= i < part.len() implies datum::tuple_len((#[trigger] part[i]).keys)
        == relation::orders_len(os) by {
        lemma_from_partition(all, a.on, i);
        let m = choose|m: int| 0 <= m < all.len() && all[m] == part[i];
        assert(datum::tuple_len(all[m].keys) == relation::orders_len(os));
    }
    relation::law_sorted(t, os, part);
    let m = row_number(t, os, a, all);
    let n = row_number(t, os, b, all);
    if relation::rank_keys(t, os, a.keys, b.keys) is Less {
        relation::lemma_rank_keys_swap(t, os, a.keys, b.keys);
        if n < m {
            assert(relation::rank_keys(t, os, ks[n - 1].keys, ks[m - 1].keys) != Rank::More);
        } else if n == m {
            relation::lemma_rank_itself(t, os, a.keys);
        }
    }
}

/// LAG has the argument of the row with the number before, LEAD that of the row with the
/// number behind; the first row has no LAG and the last one no LEAD.
pub proof fn law_neighbours(
    t: Seq<Seq<char>>,
    os: Orders,
    a: Keyed,
    b: Keyed,
    all: Seq<Keyed>,
)
    requires
        are_told_apart(all),
        all.contains(a),
        all.contains(b),
        a.on == b.on,
        all.len() < i64::MAX,
    ensures
        row_number(t, os, b, all) == row_number(t, os, a, all) + 1 ==> {
            &&& window_value(t, WindowFn::Lag, os, b, all) == Ok::<Datum, Fault>(
                datum::cell(a.out, 0),
            )
            &&& window_value(t, WindowFn::Lead, os, a, all) == Ok::<Datum, Fault>(
                datum::cell(b.out, 0),
            )
        },
        row_number(t, os, a, all) == 1 ==> window_value(t, WindowFn::Lag, os, a, all) == Ok::<
            Datum,
            Fault,
        >(Datum::Null),
        row_number(t, os, a, all) == all.filter(|k: Keyed| k.on == a.on).len() ==> window_value(
            t,
            WindowFn::Lead,
            os,
            a,
            all,
        ) == Ok::<Datum, Fault>(Datum::Null),
{
    assert(shares(a.on) =~= (|k: Keyed| k.on == a.on));
    lemma_row_number(t, os, a, all);
    lemma_row_number(t, os, b, all);
}

proof fn lemma_number_apart(a: Tuple, b: Tuple, i: int, j: int)
    requires
        0 <= i <= i64::MAX,
        0 <= j <= i64::MAX,
        with_number(a, i) == with_number(b, j),
    ensures
        i == j,
    decreases a,
{
    match (a, b) {
        (Tuple::Nil, Tuple::Nil) => {},
        (Tuple::Cons(_, p), Tuple::Cons(_, q)) => {
            lemma_number_apart(*p, *q, i, j);
        },
        (Tuple::Cons(_, p), Tuple::Nil) => {
            lemma_not_nil(*p, i);
        },
        (Tuple::Nil, Tuple::Cons(_, q)) => {
            lemma_not_nil(*q, j);
        },
    }
}

proof fn lemma_not_nil(a: Tuple, i: int)
    ensures
        with_number(a, i) != Tuple::Nil,
{
}

/// The numbers behind the cells tell all rows apart, and leave the cells as they are.
pub proof fn law_numbered(rows: Seq<Tuple>, i: int, j: int, k: nat)
    requires
        0 <= i < rows.len(),
        0 <= j < rows.len(),
        rows.len() <= i64::MAX,
    ensures
        numbered(rows).len() == rows.len(),
        numbered(rows)[i] == numbered(rows)[j] ==> i == j,
        k < datum::tuple_len(rows[i]) ==> datum::cell(numbered(rows)[i], k) == datum::cell(
            rows[i],
            k,
        ),
{
    if numbered(rows)[i] == numbered(rows)[j] {
        lemma_number_apart(rows[i], rows[j], i, j);
    }
    lemma_cells_stay(rows[i], Tuple::Cons(Datum::Big(i as i64), Box::new(Tuple::Nil)), k);
}

proof fn lemma_cells_stay(a: Tuple, b: Tuple, k: nat)
    ensures
        k < datum::tuple_len(a) ==> datum::cell(datum::tuple_append(a, b), k) == datum::cell(a, k),
    decreases a,
{
    if let Tuple::Cons(_, rest) = a {
        if k > 0 {
            lemma_cells_stay(*rest, b, (k - 1) as nat);
        }
    }
}

} // verus!
