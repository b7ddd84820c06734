//! Operations on lists of rows: duplicates, set operations, order and limits.

use vstd::prelude::*;
use crate::ast::Combine;
use crate::ast::Orders;
use crate::datum;
use crate::datum::Datum;
use crate::datum::Rank;
use crate::datum::Tuple;
use crate::symbols::Symbols;

verus! {

/// A row of a result, with the values it is sorted by and those by which
/// duplicates are told.
#[derive(Debug)]
pub struct Keyed {
    pub on: Tuple,
    pub keys: Tuple,
    pub out: Tuple,
}

impl Keyed {
    pub fn copy(&self) -> (r: Keyed)
        ensures
            r == *self,
    {
        Keyed { on: self.on.copy(), keys: self.keys.copy(), out: self.out.copy() }
    }
}

/// The rows without those that occurred before.
pub open spec fn distinct(rows: Seq<Tuple>) -> Seq<Tuple>
    decreases rows.len(),
{
    if rows.len() == 0 {
        Seq::empty()
    } else {
        let before = distinct(rows.drop_last());
        if before.contains(rows.last()) {
            before
        } else {
            before.push(rows.last())
        }
    }
}

/// The rows of `a` that are in `b`, if `present`, or that are not, otherwise.
pub open spec fn selected(a: Seq<Tuple>, b: Seq<Tuple>, present: bool) -> Seq<Tuple>
    decreases a.len(),
{
    if a.len() == 0 {
        Seq::empty()
    } else {
        let before = selected(a.drop_last(), b, present);
        if b.contains(a.last()) == present {
            before.push(a.last())
        } else {
            before
        }
    }
}

/// The first place at or after `from` at which `rows` holds `x`.
pub open spec fn row_place(rows: Seq<Tuple>, x: Tuple, from: int) -> Option<int>
    decreases rows.len() - from,
{
    if from < 0 || from >= rows.len() {
        None
    } else if rows[from] == x {
        Some(from)
    } else {
        row_place(rows, x, from + 1)
    }
}

/// Matches each row of `a`, from place `i` on, with one row of `b` that is equal
/// to it and was not matched before. Behind `acc` come the rows that have a match,
/// if `present`, or those that have none, otherwise.
pub open spec fn matched(
    a: Seq<Tuple>,
    i: int,
    b: Seq<Tuple>,
    present: bool,
    acc: Seq<Tuple>,
) -> Seq<Tuple>
    decreases a.len() - i,
{
    if i < 0 || i >= a.len() {
        acc
    } else {
        match row_place(b, a[i], 0) {
            Some(k) => matched(
                a,
                i + 1,
                b.remove(k),
                present,
                if present {
                    acc.push(a[i])
                } else {
                    acc
                },
            ),
            None => matched(
                a,
                i + 1,
                b,
                present,
                if present {
                    acc
                } else {
                    acc.push(a[i])
                },
            ),
        }
    }
}

/// The result of a set operation.
pub open spec fn combined(kind: Combine, all: bool, a: Seq<Tuple>, b: Seq<Tuple>) -> Seq<Tuple> {
    match (kind, all) {
        (Combine::Union, true) => a + b,
        (Combine::Union, false) => distinct(a + b),
        (Combine::Intersect, true) => matched(a, 0, b, true, Seq::empty()),
        (Combine::Intersect, false) => distinct(selected(a, b, true)),
        (Combine::Except, true) => matched(a, 0, b, false, Seq::empty()),
        (Combine::Except, false) => distinct(selected(a, b, false)),
    }
}

pub open spec fn reversed(r: Rank) -> Rank {
    match r {
        Rank::Less => Rank::More,
        Rank::Same => Rank::Same,
        Rank::More => Rank::Less,
    }
}

/// The order of two values of a sort key.
pub open spec fn rank_key(
    t: Seq<Seq<char>>,
    desc: bool,
    nulls_first: bool,
    a: Datum,
    b: Datum,
) -> Rank {
    if a == Datum::Null && b == Datum::Null {
        Rank::Same
    } else if a == Datum::Null {
        if nulls_first {
            Rank::Less
        } else {
            Rank::More
        }
    } else if b == Datum::Null {
        if nulls_first {
            Rank::More
        } else {
            Rank::Less
        }
    } else if desc {
        reversed(datum::rank(t, a, b))
    } else {
        datum::rank(t, a, b)
    }
}

/// The order of two rows of sort keys: by the first key that differs.
pub open spec fn rank_keys(t: Seq<Seq<char>>, os: Orders, a: Tuple, b: Tuple) -> Rank
    decreases os,
{
    match (os, a, b) {
        (Orders::Cons(_, desc, first, more), Tuple::Cons(d, rest), Tuple::Cons(e, others)) => {
            let r = rank_key(t, desc, first, d, e);
            if r == Rank::Same {
                rank_keys(t, *more, *rest, *others)
            } else {
                r
            }
        },
        _ => Rank::Same,
    }
}

/// `x` put into a sorted list, behind all rows that do not come after it.
pub open spec fn insert_sorted(t: Seq<Seq<char>>, os: Orders, s: Seq<Keyed>, x: Keyed) -> Seq<Keyed>
    decreases s.len(),
{
    if s.len() > 0 && rank_keys(t, os, s.last().keys, x.keys) == Rank::More {
        insert_sorted(t, os, s.drop_last(), x).push(s.last())
    } else {
        s.push(x)
    }
}

/// The rows in the order of their keys; rows with equal keys stay as they were.
pub open spec fn sorted(t: Seq<Seq<char>>, os: Orders, rows: Seq<Keyed>) -> Seq<Keyed>
    decreases rows.len(),
{
    if rows.len() == 0 {
        Seq::empty()
    } else {
        insert_sorted(t, os, sorted(t, os, rows.drop_last()), rows.last())
    }
}

/// Whether a row with the same distinguishing values is among the first `n`.
pub open spec fn seen_on(rows: Seq<Keyed>, x: Tuple, n: int) -> bool {
    exists|j: int| 0 <= j < n && (#[trigger] rows[j]).on == x
}

/// The rows without those whose distinguishing values occurred before.
pub open spec fn distinct_on(rows: Seq<Keyed>) -> Seq<Keyed>
    decreases rows.len(),
{
    if rows.len() == 0 {
        Seq::empty()
    } else {
        let before = distinct_on(rows.drop_last());
        if seen_on(before, rows.last().on, before.len() as int) {
            before
        } else {
            before.push(rows.last())
        }
    }
}

/// The rows that a query gives back.
pub open spec fn outs(rows: Seq<Keyed>) -> Seq<Tuple> {
    rows.map_values(|k: Keyed| k.out)
}

/// The rows behind the first `offset`, at most `limit` of them.
pub open spec fn limited(rows: Seq<Tuple>, limit: Option<u64>, offset: u64) -> Seq<Tuple> {
    let from = if offset <= rows.len() {
        offset as int
    } else {
        rows.len() as int
    };
    let to = match limit {
        None => rows.len() as int,
        Some(n) => if from + n <= rows.len() {
            from + n
        } else {
            rows.len() as int
        },
    };
    rows.subrange(from, to)
}

/// Whether a list of rows holds a row.
pub fn holds_row(rows: &Vec<Tuple>, x: &Tuple) -> (r: bool)
    ensures
        r == rows@.contains(*x),
{
    let mut i: usize = 0;
    while i < rows.len()
        invariant
            i <= rows.len(),
            forall|j: int| 0 <= j < i ==> rows@[j] != *x,
        decreases rows.len() - i,
    {
        if rows[i].same(x) {
            return true;
        }
        i += 1;
    }
    false
}

/// A copy of a list of rows.
pub fn copy_rows(rows: &Vec<Tuple>) -> (r: Vec<Tuple>)
    ensures
        r@ == rows@,
{
    let mut r: Vec<Tuple> = Vec::new();
    let mut i: usize = 0;
    while i < rows.len()
        invariant
            i <= rows.len(),
            r@ =~= rows@.take(i as int),
        decreases rows.len() - i,
    {
        r.push(rows[i].copy());
        i += 1;
    }
    r
}

/// The rows without those that occurred before.
pub fn without_duplicates(rows: &Vec<Tuple>) -> (r: Vec<Tuple>)
    ensures
        r@ == distinct(rows@),
{
    let mut r: Vec<Tuple> = Vec::new();
    let mut i: usize = 0;
    while i < rows.len()
        invariant
            i <= rows.len(),
            r@ == distinct(rows@.take(i as int)),
        decreases rows.len() - i,
    {
        proof {
            assert(rows@.take(i + 1).drop_last() =~= rows@.take(i as int));
        }
        if !holds_row(&r, &rows[i]) {
            r.push(rows[i].copy());
        }
        i += 1;
    }
    proof {
        assert(rows@.take(i as int) =~= rows@);
    }
    r
}

fn select_by(a: &Vec<Tuple>, b: &Vec<Tuple>, present: bool) -> (r: Vec<Tuple>)
    ensures
        r@ == selected(a@, b@, present),
{
    let mut r: Vec<Tuple> = Vec::new();
    let mut i: usize = 0;
    while i < a.len()
        invariant
            i <= a.len(),
            r@ == selected(a@.take(i as int), b@, present),
        decreases a.len() - i,
    {
        proof {
            assert(a@.take(i + 1).drop_last() =~= a@.take(i as int));
        }
        if holds_row(b, &a[i]) == present {
            r.push(a[i].copy());
        }
        i += 1;
    }
    proof {
        assert(a@.take(i as int) =~= a@);
    }
    r
}

fn place_of(rows: &Vec<Tuple>, x: &Tuple) -> (r: Option<usize>)
    ensures
        match r {
            Some(k) => row_place(rows@, *x, 0) == Some(k as int) && k < rows.len(),
            None => row_place(rows@, *x, 0) is None,
        },
{
    let mut i: usize = 0;
    while i < rows.len()
        invariant
            i <= rows.len(),
            row_place(rows@, *x, 0) == row_place(rows@, *x, i as int),
        decreases rows.len() - i,
    {
        if rows[i].same(x) {
            return Some(i);
        }
        i += 1;
    }
    None
}

fn match_by(a: &Vec<Tuple>, b: Vec<Tuple>, present: bool) -> (r: Vec<Tuple>)
    ensures
        r@ == matched(a@, 0, b@, present, Seq::empty()),
{
    let ghost goal = matched(a@, 0, b@, present, Seq::empty());
    let mut left: Vec<Tuple> = b;
    let mut r: Vec<Tuple> = Vec::new();
    let mut i: usize = 0;
    while i < a.len()
        invariant
            i <= a.len(),
            goal == matched(a@, i as int, left@, present, r@),
        decreases a.len() - i,
    {
        match place_of(&left, &a[i]) {
            Some(k) => {
                left.remove(k);
                if present {
                    r.push(a[i].copy());
                }
            },
            None => {
                if !present {
                    r.push(a[i].copy());
                }
            },
        }
        i += 1;
    }
    r
}

/// Carries out a set operation.
pub fn combine(kind: Combine, all: bool, a: Vec<Tuple>, b: Vec<Tuple>) -> (r: Vec<Tuple>)
    ensures
        r@ == combined(kind, all, a@, b@),
{
    match kind {
        Combine::Union => {
            let mut u: Vec<Tuple> = a;
            let mut more: Vec<Tuple> = b;
            u.append(&mut more);
            if all {
                u
            } else {
                without_duplicates(&u)
            }
        },
        Combine::Intersect => if all {
            match_by(&a, b, true)
        } else {
            without_duplicates(&select_by(&a, &b, true))
        },
        Combine::Except => if all {
            match_by(&a, b, false)
        } else {
            without_duplicates(&select_by(&a, &b, false))
        },
    }
}

fn rank_of_key(t: &Symbols, desc: bool, nulls_first: bool, a: Datum, b: Datum) -> (r: Rank)
    ensures
        r == rank_key(t@, desc, nulls_first, a, b),
{
    if a == Datum::Null && b == Datum::Null {
        Rank::Same
    } else if a == Datum::Null {
        if nulls_first {
            Rank::Less
        } else {
            Rank::More
        }
    } else if b == Datum::Null {
        if nulls_first {
            Rank::More
        } else {
            Rank::Less
        }
    } else {
        let r: Rank = datum::rank_of(t, a, b);
        if desc {
            match r {
                Rank::Less => Rank::More,
                Rank::Same => Rank::Same,
                Rank::More => Rank::Less,
            }
        } else {
            r
        }
    }
}

pub fn rank_of_keys(t: &Symbols, os: &Orders, a: &Tuple, b: &Tuple) -> (r: Rank)
    ensures
        r == rank_keys(t@, *os, *a, *b),
    decreases os,
{
    match (os, a, b) {
        (Orders::Cons(_, desc, first, more), Tuple::Cons(d, rest), Tuple::Cons(e, others)) => {
            let r: Rank = rank_of_key(t, *desc, *first, *d, *e);
            if r == Rank::Same {
                rank_of_keys(t, more, rest, others)
            } else {
                r
            }
        },
        _ => Rank::Same,
    }
}

proof fn lemma_insert_at(t: Seq<Seq<char>>, os: Orders, s: Seq<Keyed>, x: Keyed, k: int)
    requires
        0 <= k <= s.len(),
        forall|j: int|
            k <= j < s.len() ==> rank_keys(t, os, (#[trigger] s[j]).keys, x.keys) == Rank::More,
        k == 0 || rank_keys(t, os, s[k - 1].keys, x.keys) != Rank::More,
    ensures
        insert_sorted(t, os, s, x) == s.insert(k, x),
    decreases s.len(),
{
    if k < s.len() {
        lemma_insert_at(t, os, s.drop_last(), x, k);
        assert(s.drop_last().insert(k, x).push(s.last()) =~= s.insert(k, x));
    } else {
        assert(s.push(x) =~= s.insert(k, x));
    }
}

/// Sorts rows by their keys.
pub fn sort(t: &Symbols, os: &Orders, rows: &Vec<Keyed>) -> (r: Vec<Keyed>)
    ensures
        r@ == sorted(t@, *os, rows@),
{
    let mut r: Vec<Keyed> = Vec::new();
    let mut i: usize = 0;
    while i < rows.len()
        invariant
            i <= rows.len(),
            r@ == sorted(t@, *os, rows@.take(i as int)),
        decreases rows.len() - i,
    {
        let x: Keyed = rows[i].copy();
        let mut k: usize = r.len();
        while k > 0 && rank_of_keys(t, os, &r[k - 1].keys, &x.keys) == Rank::More
            invariant
                k <= r.len(),
                forall|j: int|
                    k <= j < r.len() ==> rank_keys(t@, *os, (#[trigger] r@[j]).keys, x.keys)
                        == Rank::More,
            decreases k,
        {
            k -= 1;
        }
        proof {
            lemma_insert_at(t@, *os, r@, x, k as int);
            assert(rows@.take(i + 1).drop_last() =~= rows@.take(i as int));
        }
        r.insert(k, x);
        i += 1;
    }
    proof {
        assert(rows@.take(i as int) =~= rows@);
    }
    r
}

/// The rows without those whose distinguishing values occurred before.
pub fn first_per_key(rows: &Vec<Keyed>) -> (r: Vec<Keyed>)
    ensures
        r@ == distinct_on(rows@),
{
    let mut r: Vec<Keyed> = Vec::new();
    let mut i: usize = 0;
    while i < rows.len()
        invariant
            i <= rows.len(),
            r@ == distinct_on(rows@.take(i as int)),
        decreases rows.len() - i,
    {
        proof {
            assert(rows@.take(i + 1).drop_last() =~= rows@.take(i as int));
        }
        let mut seen: bool = false;
        let mut j: usize = 0;
        while j < r.len()
            invariant
                i < rows.len(),
                j <= r.len(),
                seen == seen_on(r@, rows@[i as int].on, j as int),
            decreases r.len() - j,
        {
            if r[j].on.same(&rows[i].on) {
                seen = true;
                assert(r@[j as int].on == rows@[i as int].on);
            }
            j += 1;
        }
        if !seen {
            r.push(rows[i].copy());
        }
        i += 1;
    }
    proof {
        assert(rows@.take(i as int) =~= rows@);
    }
    r
}

/// The rows that a query gives back.
pub fn outputs(rows: &Vec<Keyed>) -> (r: Vec<Tuple>)
    ensures
        r@ == outs(rows@),
{
    let mut r: Vec<Tuple> = Vec::new();
    let mut i: usize = 0;
    while i < rows.len()
        invariant
            i <= rows.len(),
            r@ =~= outs(rows@).take(i as int),
        decreases rows.len() - i,
    {
        r.push(rows[i].out.copy());
        i += 1;
    }
    r
}

/// The rows behind the first `offset`, at most `limit` of them.
pub fn limit_rows(rows: &Vec<Tuple>, limit: Option<u64>, offset: u64) -> (r: Vec<Tuple>)
    ensures
        r@ == limited(rows@, limit, offset),
{
    let n: usize = rows.len();
    let from: usize = if offset <= n as u64 {
        offset as usize
    } else {
        n
    };
    let to: usize = match limit {
        None => n,
        Some(most) => if most <= (n - from) as u64 {
            from + most as usize
        } else {
            n
        },
    };
    let mut r: Vec<Tuple> = Vec::new();
    let mut i: usize = from;
    while i < to
        invariant
            from <= i <= to <= rows.len(),
            r@ =~= rows@.subrange(from as int, i as int),
        decreases to - i,
    {
        r.push(rows[i].copy());
        i += 1;
    }
    r
}

proof fn lemma_contains_push(s: Seq<Tuple>, y: Tuple, x: Tuple)
    ensures
        s.push(y).contains(x) <==> s.contains(x) || x == y,
{
    if s.contains(x) {
        let i = choose|i: int| 0 <= i < s.len() && s[i] == x;
        assert(s.push(y)[i] == x);
    }
    if x == y {
        assert(s.push(y)[s.len() as int] == x);
    }
    if s.push(y).contains(x) && x != y {
        let i = choose|i: int| 0 <= i < s.push(y).len() && s.push(y)[i] == x;
        assert(s[i] == x);
    }
}

proof fn lemma_distinct_member(rows: Seq<Tuple>, x: Tuple)
    ensures
        distinct(rows).contains(x) <==> rows.contains(x),
    decreases rows.len(),
{
    if rows.len() > 0 {
        let before = rows.drop_last();
        lemma_distinct_member(before, x);
        lemma_distinct_member(before, rows.last());
        assert(rows =~= before.push(rows.last()));
        lemma_contains_push(before, rows.last(), x);
        lemma_contains_push(distinct(before), rows.last(), x);
    } else {
        assert(rows =~= Seq::empty());
    }
}

/// Dropping duplicates keeps every row once.
pub proof fn law_distinct(rows: Seq<Tuple>, x: Tuple)
    ensures
        distinct(rows).no_duplicates(),
        distinct(rows).contains(x) <==> rows.contains(x),
    decreases rows.len(),
{
    lemma_distinct_member(rows, x);
    if rows.len() > 0 {
        law_distinct(rows.drop_last(), x);
    }
}

proof fn lemma_selected_member(a: Seq<Tuple>, b: Seq<Tuple>, present: bool, x: Tuple)
    ensures
        selected(a, b, present).contains(x) <==> a.contains(x) && (b.contains(x) == present),
    decreases a.len(),
{
    if a.len() > 0 {
        let before = a.drop_last();
        lemma_selected_member(before, b, present, x);
        assert(a =~= before.push(a.last()));
        lemma_contains_push(before, a.last(), x);
        lemma_contains_push(selected(before, b, present), a.last(), x);
    } else {
        assert(a =~= Seq::empty());
    }
}

/// A union holds the rows of either side, an intersection those of both, a
/// difference those of the left side alone; each row once. Null cells count as
/// equal here.
pub proof fn law_set_operations(a: Seq<Tuple>, b: Seq<Tuple>, x: Tuple)
    ensures
        combined(Combine::Union, false, a, b).contains(x) <==> a.contains(x) || b.contains(x),
        combined(Combine::Intersect, false, a, b).contains(x) <==> a.contains(x) && b.contains(x),
        combined(Combine::Except, false, a, b).contains(x) <==> a.contains(x) && !b.contains(x),
        combined(Combine::Union, false, a, b).no_duplicates(),
        combined(Combine::Intersect, false, a, b).no_duplicates(),
        combined(Combine::Except, false, a, b).no_duplicates(),
{
    law_distinct(a + b, x);
    law_distinct(selected(a, b, true), x);
    law_distinct(selected(a, b, false), x);
    lemma_selected_member(a, b, true, x);
    lemma_selected_member(a, b, false, x);
    if a.contains(x) {
        let i = choose|i: int| 0 <= i < a.len() && a[i] == x;
        assert((a + b)[i] == x);
    }
    if b.contains(x) {
        let i = choose|i: int| 0 <= i < b.len() && b[i] == x;
        assert((a + b)[a.len() + i] == x);
    }
    if (a + b).contains(x) {
        let i = choose|i: int| 0 <= i < (a + b).len() && (a + b)[i] == x;
        if i < a.len() {
            assert(a[i] == x);
        } else {
            assert(b[i - a.len()] == x);
        }
    }
}

/// A set minus itself is empty, and a set with itself is itself without
/// duplicates.
pub proof fn law_set_operations_with_itself(a: Seq<Tuple>)
    ensures
        combined(Combine::Except, false, a, a) == Seq::<Tuple>::empty(),
        combined(Combine::Intersect, false, a, a) == distinct(a),
{
    let none = selected(a, a, false);
    if none.len() > 0 {
        lemma_selected_member(a, a, false, none[0]);
        assert(none.contains(none[0]));
    }
    assert(none =~= Seq::empty());
    lemma_selected_all(a, a);
}

proof fn lemma_selected_all(a: Seq<Tuple>, b: Seq<Tuple>)
    requires
        forall|i: int| 0 <= i < a.len() ==> b.contains(#[trigger] a[i]),
    ensures
        selected(a, b, true) == a,
    decreases a.len(),
{
    if a.len() > 0 {
        assert forall|i: int| 0 <= i < a.drop_last().len() implies b.contains(
            #[trigger] a.drop_last()[i],
        ) by {
            assert(a.drop_last()[i] == a[i]);
        }
        lemma_selected_all(a.drop_last(), b);
        assert(b.contains(a[a.len() - 1]));
        assert(a.drop_last().push(a.last()) =~= a);
    } else {
        assert(selected(a, b, true) =~= a);
    }
}

/// Whether no row of a list comes before one that stands ahead of it.
pub open spec fn in_order(t: Seq<Seq<char>>, os: Orders, s: Seq<Keyed>) -> bool {
    forall|i: int, j: int|
        0 <= i < j < s.len() ==> rank_keys(t, os, (#[trigger] s[i]).keys, (#[trigger] s[j]).keys)
            != Rank::More
}

proof fn lemma_rank_key_swap(t: Seq<Seq<char>>, desc: bool, first: bool, a: Datum, b: Datum)
    ensures
        rank_key(t, desc, first, a, b) is Less <==> rank_key(t, desc, first, b, a) is More,
        rank_key(t, desc, first, a, b) is Same <==> rank_key(t, desc, first, b, a) is Same,
{
    datum::law_rank_total(t, a, b);
}

proof fn lemma_rank_chain(t: Seq<Seq<char>>, a: Datum, b: Datum, c: Datum)
    ensures
        !(datum::rank(t, a, b) is More) && !(datum::rank(t, b, c) is More) ==> !(datum::rank(
            t,
            a,
            c,
        ) is More),
{
    if !(datum::rank(t, a, b) is More) && !(datum::rank(t, b, c) is More) {
        datum::law_rank_transitive(t, a, b, c);
    }
}

proof fn lemma_rank_key_chain(
    t: Seq<Seq<char>>,
    desc: bool,
    first: bool,
    a: Datum,
    b: Datum,
    c: Datum,
)
    requires
        !(rank_key(t, desc, first, a, b) is More),
        !(rank_key(t, desc, first, b, c) is More),
    ensures
        !(rank_key(t, desc, first, a, c) is More),
        rank_key(t, desc, first, a, c) is Same ==> rank_key(t, desc, first, a, b) is Same
            && rank_key(t, desc, first, b, c) is Same,
{
    datum::law_rank_total(t, a, b);
    datum::law_rank_total(t, b, c);
    datum::law_rank_total(t, a, c);
    lemma_rank_chain(t, a, b, c);
    lemma_rank_chain(t, c, b, a);
    lemma_rank_chain(t, b, a, c);
    lemma_rank_chain(t, b, c, a);
    lemma_rank_chain(t, a, c, b);
    lemma_rank_chain(t, c, a, b);
}

/// Swapping two lists of keys swaps less and more.
pub proof fn lemma_rank_keys_swap(t: Seq<Seq<char>>, os: Orders, a: Tuple, b: Tuple)
    ensures
        rank_keys(t, os, a, b) is Less <==> rank_keys(t, os, b, a) is More,
        rank_keys(t, os, a, b) is Same <==> rank_keys(t, os, b, a) is Same,
    decreases os,
{
    if let (Orders::Cons(_, desc, first, more), Tuple::Cons(d, rest), Tuple::Cons(e, others)) = (
        os,
        a,
        b,
    ) {
        lemma_rank_key_swap(t, desc, first, d, e);
        lemma_rank_keys_swap(t, *more, *rest, *others);
    }
}

/// No list of keys comes before itself.
pub proof fn lemma_rank_itself(t: Seq<Seq<char>>, os: Orders, a: Tuple)
    ensures
        rank_keys(t, os, a, a) is Same,
    decreases os,
{
    if let (Orders::Cons(_, desc, first, more), Tuple::Cons(d, rest)) = (os, a) {
        datum::law_rank_total(t, d, d);
        lemma_rank_itself(t, *more, *rest);
    }
}

/// How many cells a list of sort keys is about.
pub open spec fn orders_len(os: Orders) -> nat
    decreases os,
{
    match os {
        Orders::Nil => 0,
        Orders::Cons(_, _, _, more) => 1 + orders_len(*more),
    }
}

proof fn lemma_rank_keys_chain(t: Seq<Seq<char>>, os: Orders, a: Tuple, b: Tuple, c: Tuple)
    requires
        datum::tuple_len(a) == orders_len(os),
        datum::tuple_len(b) == orders_len(os),
        datum::tuple_len(c) == orders_len(os),
        !(rank_keys(t, os, a, b) is More),
        !(rank_keys(t, os, b, c) is More),
    ensures
        !(rank_keys(t, os, a, c) is More),
    decreases os,
{
    if let (
        Orders::Cons(_, desc, first, more),
        Tuple::Cons(d, rest),
        Tuple::Cons(e, others),
        Tuple::Cons(f, third),
    ) = (os, a, b, c) {
        lemma_rank_key_chain(t, desc, first, d, e, f);
        if rank_key(t, desc, first, d, f) is Same {
            lemma_rank_keys_chain(t, *more, *rest, *others, *third);
        }
    }
}

/// Whether every row has one sort key for each entry of the list.
pub open spec fn keys_fit(os: Orders, s: Seq<Keyed>) -> bool {
    forall|i: int| 0 <= i < s.len() ==> datum::tuple_len((#[trigger] s[i]).keys) == orders_len(os)
}

/// Whether no row of a list comes after `y`.
spec fn all_before(t: Seq<Seq<char>>, os: Orders, s: Seq<Keyed>, y: Keyed) -> bool {
    forall|i: int|
        0 <= i < s.len() ==> rank_keys(t, os, (#[trigger] s[i]).keys, y.keys) != Rank::More
}

proof fn lemma_insert_bound(t: Seq<Seq<char>>, os: Orders, s: Seq<Keyed>, x: Keyed, y: Keyed)
    requires
        all_before(t, os, s, y),
        rank_keys(t, os, x.keys, y.keys) != Rank::More,
    ensures
        all_before(t, os, insert_sorted(t, os, s, x), y),
    decreases s.len(),
{
    if s.len() > 0 && rank_keys(t, os, s.last().keys, x.keys) == Rank::More {
        let before = s.drop_last();
        assert forall|i: int| 0 <= i < before.len() implies rank_keys(
            t,
            os,
            (#[trigger] before[i]).keys,
            y.keys,
        ) != Rank::More by {
            assert(before[i] == s[i]);
        }
        lemma_insert_bound(t, os, before, x, y);
        assert(s.last() == s[s.len() - 1]);
    }
}

proof fn lemma_insert_one(t: Seq<Seq<char>>, os: Orders, s: Seq<Keyed>, x: Keyed)
    ensures
        insert_sorted(t, os, s, x).to_multiset() == s.to_multiset().insert(x),
    decreases s.len(),
{
    broadcast use vstd::seq_lib::group_to_multiset_ensures;

    if s.len() > 0 && rank_keys(t, os, s.last().keys, x.keys) == Rank::More {
        let before = s.drop_last();
        lemma_insert_one(t, os, before, x);
        assert(s =~= before.push(s.last()));
        assert(insert_sorted(t, os, before, x).push(s.last()).to_multiset() =~= s.to_multiset().insert(
            x,
        ));
    }
}

proof fn lemma_insert_members(t: Seq<Seq<char>>, os: Orders, s: Seq<Keyed>, x: Keyed)
    requires
        keys_fit(os, s),
        datum::tuple_len(x.keys) == orders_len(os),
    ensures
        keys_fit(os, insert_sorted(t, os, s, x)),
        insert_sorted(t, os, s, x).to_multiset() == s.to_multiset().insert(x),
    decreases s.len(),
{
    broadcast use vstd::seq_lib::group_to_multiset_ensures;

    if s.len() > 0 && rank_keys(t, os, s.last().keys, x.keys) == Rank::More {
        let before = s.drop_last();
        assert forall|i: int| 0 <= i < before.len() implies datum::tuple_len(
            (#[trigger] before[i]).keys,
        ) == orders_len(os) by {
            assert(before[i] == s[i]);
        }
        lemma_insert_members(t, os, before, x);
        assert(s.last() == s[s.len() - 1]);
    }
    lemma_insert_one(t, os, s, x);
}

proof fn lemma_insert_in_order(t: Seq<Seq<char>>, os: Orders, s: Seq<Keyed>, x: Keyed)
    requires
        in_order(t, os, s),
        keys_fit(os, s),
        datum::tuple_len(x.keys) == orders_len(os),
    ensures
        in_order(t, os, insert_sorted(t, os, s, x)),
    decreases s.len(),
{
    if s.len() > 0 && rank_keys(t, os, s.last().keys, x.keys) == Rank::More {
        let before = s.drop_last();
        let last = s.last();
        assert(last == s[s.len() - 1]);
        assert forall|i: int, j: int| 0 <= i < j < before.len() implies rank_keys(
            t,
            os,
            (#[trigger] before[i]).keys,
            (#[trigger] before[j]).keys,
        ) != Rank::More by {
            assert(before[i] == s[i] && before[j] == s[j]);
        }
        assert forall|i: int| 0 <= i < before.len() implies datum::tuple_len(
            (#[trigger] before[i]).keys,
        ) == orders_len(os) by {
            assert(before[i] == s[i]);
        }
        lemma_insert_in_order(t, os, before, x);
        lemma_rank_keys_swap(t, os, last.keys, x.keys);
        assert forall|i: int| 0 <= i < before.len() implies rank_keys(
            t,
            os,
            (#[trigger] before[i]).keys,
            last.keys,
        ) != Rank::More by {
            assert(before[i] == s[i]);
        }
        lemma_insert_bound(t, os, before, x, last);
    } else if s.len() > 0 {
        assert forall|i: int| 0 <= i < s.len() implies rank_keys(
            t,
            os,
            (#[trigger] s[i]).keys,
            x.keys,
        ) != Rank::More by {
            if i < s.len() - 1 {
                assert(rank_keys(t, os, s[i].keys, s[s.len() - 1].keys) != Rank::More);
                lemma_rank_keys_chain(t, os, s[i].keys, s.last().keys, x.keys);
            }
        }
    }
}

/// Sorting gives back the same rows, whatever their keys are.
pub proof fn lemma_sorted_members(t: Seq<Seq<char>>, os: Orders, rows: Seq<Keyed>)
    ensures
        sorted(t, os, rows).to_multiset() == rows.to_multiset(),
    decreases rows.len(),
{
    broadcast use vstd::seq_lib::group_to_multiset_ensures;

    if rows.len() > 0 {
        let before = rows.drop_last();
        lemma_sorted_members(t, os, before);
        lemma_insert_one(t, os, sorted(t, os, before), rows.last());
        assert(rows =~= before.push(rows.last()));
    }
}

/// Sorting gives back the same rows, each as often as before, in the order of
/// their keys.
pub proof fn law_sorted(t: Seq<Seq<char>>, os: Orders, rows: Seq<Keyed>)
    requires
        keys_fit(os, rows),
    ensures
        in_order(t, os, sorted(t, os, rows)),
        sorted(t, os, rows).to_multiset() == rows.to_multiset(),
        keys_fit(os, sorted(t, os, rows)),
    decreases rows.len(),
{
    broadcast use vstd::seq_lib::group_to_multiset_ensures;

    if rows.len() > 0 {
        let before = rows.drop_last();
        assert forall|i: int| 0 <= i < before.len() implies datum::tuple_len(
            (#[trigger] before[i]).keys,
        ) == orders_len(os) by {
            assert(before[i] == rows[i]);
        }
        law_sorted(t, os, before);
        assert(datum::tuple_len(rows[rows.len() - 1].keys) == orders_len(os));
        lemma_insert_in_order(t, os, sorted(t, os, before), rows.last());
        lemma_insert_members(t, os, sorted(t, os, before), rows.last());
        assert(rows =~= before.push(rows.last()));
    } else {
        assert(rows =~= Seq::empty());
    }
}

/// A limit of at least the number of rows and an offset of zero leave the rows as
/// they are; a limit of zero leaves none.
pub proof fn law_limited(rows: Seq<Tuple>, n: u64)
    ensures
        limited(rows, None, 0) == rows,
        n >= rows.len() ==> limited(rows, Some(n), 0) == rows,
        limited(rows, Some(0), n) == Seq::<Tuple>::empty(),
{
    assert(limited(rows, None, 0) =~= rows);
    if n >= rows.len() {
        assert(limited(rows, Some(n), 0) =~= rows);
    }
    assert(limited(rows, Some(0), n) =~= Seq::empty());
}

} // verus!
