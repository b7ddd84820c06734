//! The rows that a query gives back.
//!
//! Rows are gone through in order, so where several of them have no value, the
//! first one decides which fault is reported.

use vstd::prelude::*;
use crate::analyze;
use crate::analyze::Cx;
use crate::analyze::CxModel;
use crate::analyze::Named;
use crate::analyze::Params;
use crate::ast::AggFn;
use crate::ast::Distinct;
use crate::ast::Expr;
use crate::ast::ExprRows;
use crate::ast::Exprs;
use crate::ast::Item;
use crate::ast::Items;
use crate::ast::JoinKind;
use crate::ast::JoinOn;
use crate::ast::Name;
use crate::ast::Orders;
use crate::ast::Over;
use crate::ast::Query;
use crate::ast::Select;
use crate::ast::Source;
use crate::ast::TextFn;
use crate::ast::Whens;
use crate::catalog;
use crate::catalog::Table;
use crate::catalog::TableModel;
use crate::datum;
use crate::datum::Arith;
use crate::datum::ArithFault;
use crate::datum::Compare;
use crate::datum::DataType;
use crate::datum::Datum;
use crate::datum::Rank;
use crate::datum::Tuple;
use crate::fault::Fault;
use crate::fields;
use crate::fields::Env;
use crate::fields::Fields;
use crate::fields::Pairs;
use crate::relation;
use crate::relation::Keyed;
use crate::strings;
use crate::symbols;
use crate::symbols::Symbols;
use crate::text;
use crate::window;

verus! {

/// Rows with their columns.
pub struct Rel {
    pub fields: Fields,
    pub rows: Vec<Tuple>,
}

pub struct RelModel {
    pub fields: Fields,
    pub rows: Seq<Tuple>,
}

impl View for Rel {
    type V = RelModel;

    open spec fn view(&self) -> RelModel {
        RelModel { fields: self.fields, rows: self.rows@ }
    }
}

pub open spec fn result_view_rowsr(r: Result<Vec<Tuple>, Fault>) -> Result<Seq<Tuple>, Fault> {
    match r {
        Ok(v) => Ok(v@),
        Err(f) => Err(f),
    }
}

pub open spec fn result_view_keyedr(r: Result<Vec<Keyed>, Fault>) -> Result<Seq<Keyed>, Fault> {
    match r {
        Ok(v) => Ok(v@),
        Err(f) => Err(f),
    }
}

pub open spec fn result_view_datumsr(r: Result<Vec<Datum>, Fault>) -> Result<Seq<Datum>, Fault> {
    match r {
        Ok(v) => Ok(v@),
        Err(f) => Err(f),
    }
}

pub open spec fn result_view_relr(r: Result<Rel, Fault>) -> Result<RelModel, Fault> {
    match r {
        Ok(v) => Ok(v@),
        Err(f) => Err(f),
    }
}

pub open spec fn group_view(g: Option<&Vec<Tuple>>) -> Option<Seq<Tuple>> {
    match g {
        None => None,
        Some(v) => Some(v@),
    }
}

/// The rows, from place `i` on, of which the condition `e` holds, behind `acc`.
pub open spec fn kept_rows(
    cx: CxModel,
    env: Env,
    fs: Fields,
    e: Expr,
    rows: Seq<Tuple>,
    i: int,
    acc: Seq<Tuple>,
) -> Result<Seq<Tuple>, Fault>
    decreases e, 1int, rows.len() - i,
{
    if i < 0 || i >= rows.len() {
        Ok(acc)
    } else {
        match expr_value(cx, Env::Frame(&fs, &rows[i], &env), None, e) {
            Err(f) => Err(f),
            Ok(d) => kept_rows(
                cx,
                env,
                fs,
                e,
                rows,
                i + 1,
                if datum::holds(d) {
                    acc.push(rows[i])
                } else {
                    acc
                },
            ),
        }
    }
}

/// The values of `e`, from row `i` on, that are not null, behind `acc`.
pub open spec fn argument_values(
    cx: CxModel,
    env: Env,
    fs: Fields,
    e: Expr,
    rows: Seq<Tuple>,
    i: int,
    acc: Seq<Datum>,
) -> Result<Seq<Datum>, Fault>
    decreases e, 1int, rows.len() - i,
{
    if i < 0 || i >= rows.len() {
        Ok(acc)
    } else {
        match expr_value(cx, Env::Frame(&fs, &rows[i], &env), None, e) {
            Err(f) => Err(f),
            Ok(d) => argument_values(
                cx,
                env,
                fs,
                e,
                rows,
                i + 1,
                if d == Datum::Null {
                    acc
                } else {
                    acc.push(d)
                },
            ),
        }
    }
}

/// The values without those that occurred before.
pub open spec fn distinct_values(vs: Seq<Datum>) -> Seq<Datum>
    decreases vs.len(),
{
    if vs.len() == 0 {
        Seq::empty()
    } else {
        let before = distinct_values(vs.drop_last());
        if before.contains(vs.last()) {
            before
        } else {
            before.push(vs.last())
        }
    }
}

/// The sum of the values from place `i` on and `acc`; null is no sum yet.
pub open spec fn sum_from(vs: Seq<Datum>, i: int, acc: Datum) -> Result<Datum, Fault>
    decreases vs.len() - i,
{
    if i < 0 || i >= vs.len() {
        Ok(acc)
    } else if acc == Datum::Null {
        sum_from(vs, i + 1, vs[i])
    } else {
        match arith_value(datum::calculated(Arith::Plus, acc, vs[i])) {
            Err(f) => Err(f),
            Ok(d) => sum_from(vs, i + 1, d),
        }
    }
}

/// The first of the values from place `i` on and `acc` that no other one comes
/// before, if `least`, or after, otherwise.
pub open spec fn extreme_from(
    t: Seq<Seq<char>>,
    least: bool,
    vs: Seq<Datum>,
    i: int,
    acc: Datum,
) -> Datum
    decreases vs.len() - i,
{
    if i < 0 || i >= vs.len() {
        acc
    } else {
        let r = datum::rank(t, vs[i], acc);
        extreme_from(
            t,
            least,
            vs,
            i + 1,
            if acc == Datum::Null || (least && r == Rank::Less) || (!least && r == Rank::More) {
                vs[i]
            } else {
                acc
            },
        )
    }
}

/// The value of an aggregate function on values that are not null.
pub open spec fn aggregate(t: Seq<Seq<char>>, f: AggFn, once: bool, all: Seq<Datum>) -> Result<
    Datum,
    Fault,
> {
    let vs = if once {
        distinct_values(all)
    } else {
        all
    };
    match f {
        AggFn::Count => Ok(Datum::Big(vs.len() as i64)),
        AggFn::Sum => sum_from(vs, 0, Datum::Null),
        AggFn::Min => Ok(extreme_from(t, true, vs, 0, Datum::Null)),
        AggFn::Max => Ok(extreme_from(t, false, vs, 0, Datum::Null)),
    }
}

/// Whether `x` is equal to the first cell of one of the rows from place `i` on:
/// unknown if it is equal to none and one of the comparisons is unknown, as one
/// before was if `unknown`.
pub open spec fn member_from(
    t: Seq<Seq<char>>,
    x: Datum,
    rows: Seq<Tuple>,
    i: int,
    unknown: bool,
) -> Datum
    decreases rows.len() - i,
{
    if i < 0 || i >= rows.len() {
        if unknown {
            Datum::Null
        } else {
            Datum::Bool(false)
        }
    } else {
        let c = datum::compared(t, Compare::Eq, x, datum::cell(rows[i], 0));
        if c == Datum::Bool(true) {
            Datum::Bool(true)
        } else {
            member_from(t, x, rows, i + 1, unknown || c == Datum::Null)
        }
    }
}

/// The rows of values from `rows` on, behind `acc`.
pub open spec fn values_rows(cx: CxModel, env: Env, rows: ExprRows, acc: Seq<Tuple>) -> Result<
    Seq<Tuple>,
    Fault,
>
    decreases rows, 0int, 0int,
{
    match rows {
        ExprRows::Nil => Ok(acc),
        ExprRows::Cons(row, rest) => match exprs_value(cx, env, None, *row) {
            Err(f) => Err(f),
            Ok(t) => values_rows(cx, env, *rest, acc.push(t)),
        },
    }
}

/// The rows that a left row makes with the right rows from place `j` on, behind
/// `acc`.
pub open spec fn matches_from(
    cx: CxModel,
    env: Env,
    fs: Fields,
    on: JoinOn,
    ps: Pairs,
    l: Tuple,
    rights: Seq<Tuple>,
    j: int,
    acc: Seq<Tuple>,
) -> Result<Seq<Tuple>, Fault>
    decreases on, 1int, rights.len() - j,
{
    if j < 0 || j >= rights.len() {
        Ok(acc)
    } else {
        match pair_holds(cx, env, fs, on, ps, l, rights[j]) {
            Err(f) => Err(f),
            Ok(b) => matches_from(
                cx,
                env,
                fs,
                on,
                ps,
                l,
                rights,
                j + 1,
                if b {
                    acc.push(fields::joined(ps, l, rights[j]))
                } else {
                    acc
                },
            ),
        }
    }
}

/// The rows that the left rows from place `i` on make, behind `acc`. A left row
/// without a match makes one with nulls, if `pad`.
pub open spec fn left_rows(
    cx: CxModel,
    env: Env,
    fs: Fields,
    on: JoinOn,
    ps: Pairs,
    pad: bool,
    filler: Tuple,
    lefts: Seq<Tuple>,
    rights: Seq<Tuple>,
    i: int,
    acc: Seq<Tuple>,
) -> Result<Seq<Tuple>, Fault>
    decreases on, 2int, lefts.len() - i,
{
    if i < 0 || i >= lefts.len() {
        Ok(acc)
    } else {
        match matches_from(cx, env, fs, on, ps, lefts[i], rights, 0, Seq::empty()) {
            Err(f) => Err(f),
            Ok(ms) => left_rows(
                cx,
                env,
                fs,
                on,
                ps,
                pad,
                filler,
                lefts,
                rights,
                i + 1,
                if pad && ms.len() == 0 {
                    acc.push(fields::joined(ps, lefts[i], filler))
                } else {
                    acc + ms
                },
            ),
        }
    }
}

/// Whether one of the left rows from place `i` on matches a right row.
pub open spec fn has_left(
    cx: CxModel,
    env: Env,
    fs: Fields,
    on: JoinOn,
    ps: Pairs,
    r: Tuple,
    lefts: Seq<Tuple>,
    i: int,
) -> Result<bool, Fault>
    decreases on, 1int, lefts.len() - i,
{
    if i < 0 || i >= lefts.len() {
        Ok(false)
    } else {
        match pair_holds(cx, env, fs, on, ps, lefts[i], r) {
            Err(f) => Err(f),
            Ok(b) => if b {
                Ok(true)
            } else {
                has_left(cx, env, fs, on, ps, r, lefts, i + 1)
            },
        }
    }
}

/// The rows that the right rows from place `j` on make with nulls where they have
/// no match, behind `acc`.
pub open spec fn lonely_rights(
    cx: CxModel,
    env: Env,
    fs: Fields,
    on: JoinOn,
    ps: Pairs,
    filler: Tuple,
    lefts: Seq<Tuple>,
    rights: Seq<Tuple>,
    j: int,
    acc: Seq<Tuple>,
) -> Result<Seq<Tuple>, Fault>
    decreases on, 2int, rights.len() - j,
{
    if j < 0 || j >= rights.len() {
        Ok(acc)
    } else {
        match has_left(cx, env, fs, on, ps, rights[j], lefts, 0) {
            Err(f) => Err(f),
            Ok(b) => lonely_rights(
                cx,
                env,
                fs,
                on,
                ps,
                filler,
                lefts,
                rights,
                j + 1,
                if b {
                    acc
                } else {
                    acc.push(fields::joined(ps, filler, rights[j]))
                },
            ),
        }
    }
}

/// The rows of a join.
pub open spec fn join_rows(
    cx: CxModel,
    env: Env,
    kind: JoinKind,
    fs: Fields,
    on: JoinOn,
    ps: Pairs,
    l: RelModel,
    r: RelModel,
) -> Result<Seq<Tuple>, Fault>
    decreases on, 3int, 0int,
{
    match left_rows(
        cx,
        env,
        fs,
        on,
        ps,
        kind == JoinKind::Left || kind == JoinKind::Full,
        datum::nulls(fields::fields_len(r.fields)),
        l.rows,
        r.rows,
        0,
        Seq::empty(),
    ) {
        Err(f) => Err(f),
        Ok(rows) => if kind == JoinKind::Right || kind == JoinKind::Full {
            lonely_rights(
                cx,
                env,
                fs,
                on,
                ps,
                datum::nulls(fields::fields_len(l.fields)),
                l.rows,
                r.rows,
                0,
                rows,
            )
        } else {
            Ok(rows)
        },
    }
}

/// The rows from place `i` on with the values that they are grouped by, behind
/// `acc`.
pub open spec fn key_rows(
    cx: CxModel,
    env: Env,
    fs: Fields,
    es: Exprs,
    rows: Seq<Tuple>,
    i: int,
    acc: Seq<Keyed>,
) -> Result<Seq<Keyed>, Fault>
    decreases es, 1int, rows.len() - i,
{
    if i < 0 || i >= rows.len() {
        Ok(acc)
    } else {
        match exprs_value(cx, Env::Frame(&fs, &rows[i], &env), None, es) {
            Err(f) => Err(f),
            Ok(t) => key_rows(
                cx,
                env,
                fs,
                es,
                rows,
                i + 1,
                acc.push(Keyed { on: t, keys: Tuple::Nil, out: rows[i] }),
            ),
        }
    }
}

/// What windows are made of, for the rows from place `i` on, behind `acc`.
pub open spec fn window_rows(
    cx: CxModel,
    env: Env,
    fs: Fields,
    over: Over,
    rows: Seq<Tuple>,
    i: int,
    acc: Seq<Keyed>,
) -> Result<Seq<Keyed>, Fault>
    decreases over, 1int, rows.len() - i,
{
    if i < 0 || i >= rows.len() {
        Ok(acc)
    } else {
        match window_row(cx, Env::Frame(&fs, &rows[i], &env), over, rows[i]) {
            Err(f) => Err(f),
            Ok(k) => window_rows(cx, env, fs, over, rows, i + 1, acc.push(k)),
        }
    }
}

/// The rows of the group with the given values.
pub open spec fn group_members(ks: Seq<Keyed>, on: Tuple) -> Seq<Tuple>
    decreases ks.len(),
{
    if ks.len() == 0 {
        Seq::empty()
    } else {
        let before = group_members(ks.drop_last(), on);
        if ks.last().on == on {
            before.push(ks.last().out)
        } else {
            before
        }
    }
}

/// The row that stands for a group: its first one, or nulls if it has none.
pub open spec fn group_head(fs: Fields, rows: Seq<Tuple>) -> Tuple {
    if rows.len() > 0 {
        rows[0]
    } else {
        datum::nulls(fields::fields_len(fs))
    }
}

/// The results of the groups from place `i` of `heads` on, behind `acc`.
pub open spec fn group_outputs(
    cx: CxModel,
    env: Env,
    fs: Fields,
    outs: Fields,
    s: Select,
    ks: Seq<Keyed>,
    heads: Seq<Keyed>,
    i: int,
    acc: Seq<Keyed>,
) -> Result<Seq<Keyed>, Fault>
    decreases s, 1int, heads.len() - i,
{
    if i < 0 || i >= heads.len() {
        Ok(acc)
    } else {
        let rows = group_members(ks, heads[i].on);
        let head = group_head(fs, rows);
        match expr_value(cx, Env::Frame(&fs, &head, &env), Some(rows), s.having) {
            Err(f) => Err(f),
            Ok(d) => if datum::holds(d) {
                match block_output(cx, Env::Frame(&fs, &head, &env), Some(rows), outs, s) {
                    Err(f) => Err(f),
                    Ok(k) => group_outputs(cx, env, fs, outs, s, ks, heads, i + 1, acc.push(k)),
                }
            } else {
                group_outputs(cx, env, fs, outs, s, ks, heads, i + 1, acc)
            },
        }
    }
}

/// The results of the rows from place `i` on, behind `acc`.
pub open spec fn row_outputs(
    cx: CxModel,
    env: Env,
    fs: Fields,
    group: Option<Seq<Tuple>>,
    outs: Fields,
    s: Select,
    rows: Seq<Tuple>,
    i: int,
    acc: Seq<Keyed>,
) -> Result<Seq<Keyed>, Fault>
    decreases s, 1int, rows.len() - i,
{
    if i < 0 || i >= rows.len() {
        Ok(acc)
    } else {
        match block_output(cx, Env::Frame(&fs, &rows[i], &env), group, outs, s) {
            Err(f) => Err(f),
            Ok(k) => row_outputs(cx, env, fs, group, outs, s, rows, i + 1, acc.push(k)),
        }
    }
}

/// The groups of a query block, one row for each. Without grouping expressions
/// all rows are one group, even if there is none.
pub open spec fn group_heads(s: Select, ks: Seq<Keyed>) -> Seq<Keyed> {
    if s.group is Nil {
        seq![Keyed { on: Tuple::Nil, keys: Tuple::Nil, out: Tuple::Nil }]
    } else {
        relation::distinct_on(ks)
    }
}

/// The rows of a query block that its condition leaves, or none where the result
/// does not depend on them.
pub open spec fn filtered(cx: CxModel, env: Env, s: Select, rel: RelModel) -> Result<
    Seq<Tuple>,
    Fault,
>
    decreases s, 1int, 0int,
{
    if analyze::needs_rows(s) {
        kept_rows(cx, env, rel.fields, s.filter, rel.rows, 0, Seq::empty())
    } else {
        Ok(Seq::empty())
    }
}

/// The results of a query block, in no particular order.
pub open spec fn block_rows(cx: CxModel, env: Env, s: Select) -> Result<Seq<Keyed>, Fault>
    decreases s, 2int, 0int,
{
    match source_rel(cx, env, s.source) {
        Err(f) => Err(f),
        Ok(rel) => match filtered(cx, env, s, rel) {
            Err(f) => Err(f),
            Ok(rows) => match analyze::items_fields(
                cx,
                Env::Frame(&rel.fields, &Tuple::Nil, &env),
                rel.fields,
                s.items,
            ) {
                Err(f) => Err(f),
                Ok(outs) => if analyze::is_grouped(s) {
                    match key_rows(cx, env, rel.fields, s.group, rows, 0, Seq::empty()) {
                        Err(f) => Err(f),
                        Ok(ks) => group_outputs(
                            cx,
                            env,
                            rel.fields,
                            outs,
                            s,
                            ks,
                            group_heads(s, ks),
                            0,
                            Seq::empty(),
                        ),
                    }
                } else if analyze::windowed(s) {
                    let all = window::numbered(rows);
                    row_outputs(cx, env, rel.fields, Some(all), outs, s, all, 0, Seq::empty())
                } else {
                    row_outputs(cx, env, rel.fields, None, outs, s, rows, 0, Seq::empty())
                },
            },
        },
    }
}

/// The results of a query block in their order, with duplicates dropped as it
/// says.
pub open spec fn arranged(t: Seq<Seq<char>>, s: Select, ks: Seq<Keyed>) -> Seq<Tuple> {
    let ordered = relation::sorted(t, s.orders, ks);
    relation::outs(
        if s.distinct is No {
            ordered
        } else {
            relation::distinct_on(ordered)
        },
    )
}

/// The rows of a result with the values that they are sorted by.
pub open spec fn keyed_outputs(fs: Fields, os: Orders, rows: Seq<Tuple>) -> Seq<Keyed> {
    rows.map_values(
        |r: Tuple| Keyed { on: Tuple::Nil, keys: output_keys(fs, os, r), out: r },
    )
}

/// A number of a series: of 32 bits if both its ends are.
pub open spec fn series_cell(narrow: bool, n: int) -> Datum {
    if narrow {
        Datum::Int(n as i32)
    } else {
        Datum::Big(n as i64)
    }
}

/// The rows of a series: all numbers from one to another, none if one of the two is
/// null.
pub open spec fn series(a: Datum, b: Datum) -> Seq<Tuple> {
    let lo = datum::as_number(a);
    let hi = datum::as_number(b);
    let narrow = a is Int && b is Int;
    if datum::is_number(a) && datum::is_number(b) && lo <= hi {
        Seq::new(
            (hi - lo + 1) as nat,
            |i: int| Tuple::Cons(series_cell(narrow, lo + i), Box::new(Tuple::Nil)),
        )
    } else {
        Seq::empty()
    }
}

/// The rows that a query gives back, each as a list of cells.
pub open spec fn query_rows(cx: CxModel, env: Env, q: Query) -> Result<Seq<Tuple>, Fault>
    decreases q, 0int, 0int,
{
    match q {
        Query::Select(s) => match block_rows(cx, env, *s) {
            Err(f) => Err(f),
            Ok(ks) => Ok(arranged(cx.symbols, *s, ks)),
        },
        Query::Values(rows) => values_rows(cx, env, *rows, Seq::empty()),
        Query::Series(a, b) => match expr_value(cx, env, None, *a) {
            Err(f) => Err(f),
            Ok(x) => match expr_value(cx, env, None, *b) {
                Err(f) => Err(f),
                Ok(y) => Ok(series(x, y)),
            },
        },
        Query::Combined(kind, all, a, b) => match query_rows(cx, env, *a) {
            Err(f) => Err(f),
            Ok(x) => match query_rows(cx, env, *b) {
                Err(f) => Err(f),
                Ok(y) => Ok(relation::combined(kind, all, x, y)),
            },
        },
        Query::Sorted(inner, os, limit, offset) => match query_rows(cx, env, *inner) {
            Err(f) => Err(f),
            Ok(rows) => match analyze::query_fields(cx, env, *inner) {
                Err(f) => Err(f),
                Ok(fs) => Ok(
                    relation::limited(
                        relation::outs(
                            relation::sorted(cx.symbols, *os, keyed_outputs(fs, *os, rows)),
                        ),
                        limit,
                        offset,
                    ),
                ),
            },
        },
        Query::With(n, cols, def, body) => match query_rows(cx, env, *def) {
            Err(f) => Err(f),
            Ok(rows) => match analyze::query_fields(cx, env, *def) {
                Err(f) => Err(f),
                Ok(fs) => query_rows(
                    analyze::with_named(cx, n, fields::renamed(fs, *cols), rows),
                    env,
                    *body,
                ),
            },
        },
    }
}

/// Whether a text from place `i` on matches a pattern from place `j` on. `%` stands
/// for any characters, `_` for one, and a backslash takes the meaning from the
/// character behind it.
pub open spec fn like_from(s: Seq<char>, i: int, p: Seq<char>, j: int) -> bool
    decreases (s.len() - i) + (p.len() - j),
{
    if i < 0 || j < 0 || i > s.len() || j > p.len() {
        false
    } else if j == p.len() {
        i == s.len()
    } else if p[j] == '%' {
        like_from(s, i, p, j + 1) || (i < s.len() && like_from(s, i + 1, p, j))
    } else if i == s.len() {
        false
    } else if p[j] == '\\' && j + 1 < p.len() {
        s[i] == p[j + 1] && like_from(s, i + 1, p, j + 2)
    } else if p[j] == '_' {
        like_from(s, i + 1, p, j + 1)
    } else {
        s[i] == p[j] && like_from(s, i + 1, p, j + 1)
    }
}

/// The value of a match of a text with a pattern.
pub open spec fn like_value(t: Seq<Seq<char>>, a: Datum, b: Datum) -> Datum {
    match (a, b) {
        (Datum::Text(x), Datum::Text(y)) => Datum::Bool(
            like_from(symbols::text_at(t, x), 0, symbols::text_at(t, y), 0),
        ),
        _ => Datum::Null,
    }
}

/// The rows of the named query that a name means, with their columns.
pub open spec fn named_rel(cx: CxModel, n: Name, qualifier: usize) -> Option<RelModel> {
    match n.schema {
        Some(_) => None,
        None => match (
            analyze::named_fields(cx.named, n.name),
            analyze::named_rows(cx.named, n.name),
        ) {
            (Some(fs), Some(rows)) => Some(
                RelModel { fields: fields::requalified(fs, qualifier), rows },
            ),
            _ => None,
        },
    }
}

/// The value of a calculation.
pub open spec fn arith_value(r: Result<Datum, ArithFault>) -> Result<Datum, Fault>
{
    match r {
        Ok(d) => Ok(d),
        Err(ArithFault::NotNumbers) => Err(Fault::OperatorMissing),
        Err(ArithFault::DivisionByZero) => Err(Fault::DivisionByZero),
        Err(ArithFault::OutOfRange) => Err(Fault::OutOfRange),
    }
}

/// A value as one of another type; a text is none of a number.
pub open spec fn cast_value(t: Seq<Seq<char>>, d: Datum, ty: DataType) -> Result<Datum, Fault>
{
    match (d, ty) {
        (Datum::Null, _) => Ok(Datum::Null),
        (Datum::Int(_), DataType::Int) => Ok(d),
        (Datum::Int(n), DataType::BigInt) => Ok(Datum::Big(n as i64)),
        (Datum::Big(_), DataType::BigInt) => Ok(d),
        (Datum::Big(n), DataType::Int) => if -2147483648 <= n && n <= 2147483647 {
            Ok(Datum::Int(n as i32))
        } else {
            Err(Fault::OutOfRange)
        },
        (Datum::Bool(_), DataType::Boolean) => Ok(d),
        (Datum::Text(_), DataType::Text) => Ok(d),
        (Datum::Text(s), DataType::BigInt) => match text::integer_of(symbols::text_at(t, s)) {
            Some(n) => Ok(Datum::Big(n)),
            None => Err(Fault::InvalidNumber { value: s }),
        },
        (Datum::Text(s), DataType::Int) => match text::integer_of(symbols::text_at(t, s)) {
            Some(n) => if -2147483648 <= n && n <= 2147483647 {
                Ok(Datum::Int(n as i32))
            } else {
                Err(Fault::OutOfRange)
            },
            None => Err(Fault::InvalidNumber { value: s }),
        },
        _ => Err(Fault::OperatorMissing),
    }
}

/// A truth value, negated if `negate`.
pub open spec fn negated(d: Datum, negate: bool) -> Datum
{
    if negate {
        datum::not3(d)
    } else {
        d
    }
}

/// The value of an expression over the rows in scope. In a grouped query block
/// `group` holds the rows of the group, which aggregate functions go through.
pub open spec fn expr_value(
    cx: CxModel,
    env: Env,
    group: Option<Seq<Tuple>>,
    e: Expr,
) -> Result<Datum, Fault>
    decreases e, 0int, 0int,
{
    match e {
        Expr::Lit(d) => Ok(d),
        Expr::Col(q, n) => match fields::env_cell(env, q, n) {
            None => Err(Fault::UndefinedColumn { table: q, name: n }),
            Some(Err(_)) => Err(Fault::AmbiguousColumn { name: n }),
            Some(Ok(d)) => Ok(d),
        },
        Expr::Not(x) => {
            match expr_value(cx, env, group, *x) {
                Err(f) => Err(f),
                Ok(d) => {
                    Ok(datum::not3(d))
                },
            }
        },
        Expr::Negate(x) => {
            match expr_value(cx, env, group, *x) {
                Err(f) => Err(f),
                Ok(d) => {
                    arith_value(datum::calculated(Arith::Minus, Datum::Int(0), d))
                },
            }
        },
        Expr::And(x, y) => {
            match expr_value(cx, env, group, *x) {
                Err(f) => Err(f),
                Ok(a) => {
                    if a == Datum::Bool(false) {
                        Ok(Datum::Bool(false))
                    } else {
                        match expr_value(cx, env, group, *y) {
                            Err(f) => Err(f),
                            Ok(b) => {
                                Ok(datum::and3(a, b))
                            },
                        }
                    }
                },
            }
        },
        Expr::Or(x, y) => {
            match expr_value(cx, env, group, *x) {
                Err(f) => Err(f),
                Ok(a) => {
                    if a == Datum::Bool(true) {
                        Ok(Datum::Bool(true))
                    } else {
                        match expr_value(cx, env, group, *y) {
                            Err(f) => Err(f),
                            Ok(b) => {
                                Ok(datum::or3(a, b))
                            },
                        }
                    }
                },
            }
        },
        Expr::Compare(c, x, y) => {
            match expr_value(cx, env, group, *x) {
                Err(f) => Err(f),
                Ok(a) => {
                    match expr_value(cx, env, group, *y) {
                        Err(f) => Err(f),
                        Ok(b) => {
                            Ok(datum::compared(cx.symbols, c, a, b))
                        },
                    }
                },
            }
        },
        Expr::Arith(op, x, y) => {
            match expr_value(cx, env, group, *x) {
                Err(f) => Err(f),
                Ok(a) => {
                    match expr_value(cx, env, group, *y) {
                        Err(f) => Err(f),
                        Ok(b) => {
                            arith_value(datum::calculated(op, a, b))
                        },
                    }
                },
            }
        },
        Expr::IsNull(x, negate) => {
            match expr_value(cx, env, group, *x) {
                Err(f) => Err(f),
                Ok(d) => {
                    Ok(Datum::Bool((d == Datum::Null) != negate))
                },
            }
        },
        Expr::InList(x, list, negate) => {
            match expr_value(cx, env, group, *x) {
                Err(f) => Err(f),
                Ok(d) => {
                    match list_member(cx, env, group, d, *list, false) {
                        Err(f) => Err(f),
                        Ok(m) => {
                            Ok(negated(m, negate))
                        },
                    }
                },
            }
        },
        Expr::InQuery(x, q, negate) => {
            match expr_value(cx, env, group, *x) {
                Err(f) => Err(f),
                Ok(d) => {
                    match query_rows(cx, env, *q) {
                        Err(f) => Err(f),
                        Ok(rows) => {
                            Ok(negated(member_from(cx.symbols, d, rows, 0, false), negate))
                        },
                    }
                },
            }
        },
        Expr::Between(x, y, z, negate) => {
            match expr_value(cx, env, group, *x) {
                Err(f) => Err(f),
                Ok(d) => {
                    match expr_value(cx, env, group, *y) {
                        Err(f) => Err(f),
                        Ok(low) => {
                            match expr_value(cx, env, group, *z) {
                                Err(f) => Err(f),
                                Ok(high) => {
                                    Ok(
                                        negated(
                                            datum::and3(
                                                datum::compared(cx.symbols, Compare::Ge, d, low),
                                                datum::compared(cx.symbols, Compare::Le, d, high),
                                            ),
                                            negate,
                                        ),
                                    )
                                },
                            }
                        },
                    }
                },
            }
        },
        Expr::Exists(q) => {
            match query_rows(cx, env, *q) {
                Err(f) => Err(f),
                Ok(rows) => {
                    Ok(Datum::Bool(rows.len() > 0))
                },
            }
        },
        Expr::Scalar(q) => {
            match query_rows(cx, env, *q) {
                Err(f) => Err(f),
                Ok(rows) => {
                    if rows.len() == 0 {
                        Ok(Datum::Null)
                    } else if rows.len() == 1 {
                        Ok(datum::cell(rows[0], 0))
                    } else {
                        Err(Fault::MoreThanOneRow)
                    }
                },
            }
        },
        Expr::Case(whens, otherwise) => {
            match when_value(cx, env, group, *whens) {
                Err(f) => Err(f),
                Ok(found) => {
                    match found {
                        Some(d) => Ok(d),
                        None => expr_value(cx, env, group, *otherwise),
                    }
                },
            }
        },
        Expr::Coalesce(list) => first_value(cx, env, group, *list),
        Expr::CountRows => match group {
            None => Err(Fault::MisplacedAggregate),
            Some(rows) => Ok(Datum::Big(rows.len() as i64)),
        },
        Expr::Agg(f, once, x) => match (env, group) {
            (Env::Frame(fs, _, outer), Some(rows)) => {
                match argument_values(cx, *outer, *fs, *x, rows, 0, Seq::empty()) {
                    Err(f) => Err(f),
                    Ok(vs) => {
                        aggregate(cx.symbols, f, once, vs)
                    },
                }
            },
            _ => Err(Fault::MisplacedAggregate),
        },
        Expr::Next(_, _) => Err(Fault::MisplacedDraw),
        Expr::Window(f, _, over) => match (env, group) {
            (Env::Frame(fs, row, outer), Some(rows)) => {
                match window_row(cx, env, *over, *row) {
                    Err(f) => Err(f),
                    Ok(me) => {
                        match window_rows(cx, *outer, *fs, *over, rows, 0, Seq::empty()) {
                            Err(f) => Err(f),
                            Ok(ks) => {
                                window::window_value(cx.symbols, f, over.orders, me, ks)
                            },
                        }
                    },
                }
            },
            _ => Err(Fault::MisplacedWindow),
        },
        Expr::Cast(x, ty) => {
            match expr_value(cx, env, group, *x) {
                Err(f) => Err(f),
                Ok(d) => {
                    if ty == DataType::Text {
                        strings::call_value(cx.symbols, TextFn::Cast, d, Datum::Null, Datum::Null)
                    } else {
                        cast_value(cx.symbols, d, ty)
                    }
                },
            }
        },
        Expr::Default => Err(Fault::MisplacedDefault),
        Expr::Param(k) => match cx.params {
            Params::Given(values) => match analyze::param_value(values, k) {
                None => Err(Fault::Parameter),
                Some(d) => Ok(d),
            },
            _ => Err(Fault::Parameter),
        },
        Expr::Like(x, y, negate) => {
            match expr_value(cx, env, group, *x) {
                Err(f) => Err(f),
                Ok(a) => {
                    match expr_value(cx, env, group, *y) {
                        Err(f) => Err(f),
                        Ok(b) => {
                            Ok(negated(like_value(cx.symbols, a, b), negate))
                        },
                    }
                },
            }
        },
        Expr::Switch(x, whens, otherwise) => {
            match expr_value(cx, env, group, *x) {
                Err(f) => Err(f),
                Ok(d) => {
                    match switch_value(cx, env, group, d, *whens) {
                        Err(f) => Err(f),
                        Ok(found) => {
                            match found {
                                Some(v) => Ok(v),
                                None => expr_value(cx, env, group, *otherwise),
                            }
                        },
                    }
                },
            }
        },
        Expr::Call(f, _, x, y, z) => {
            match expr_value(cx, env, group, *x) {
                Err(f) => Err(f),
                Ok(a) => {
                    match expr_value(cx, env, group, *y) {
                        Err(f) => Err(f),
                        Ok(b) => {
                            match expr_value(cx, env, group, *z) {
                                Err(f) => Err(f),
                                Ok(c) => {
                                    strings::call_value(cx.symbols, f, a, b, c)
                                },
                            }
                        },
                    }
                },
            }
        },
        Expr::NullIf(x, y) => {
            match expr_value(cx, env, group, *x) {
                Err(f) => Err(f),
                Ok(a) => {
                    match expr_value(cx, env, group, *y) {
                        Err(f) => Err(f),
                        Ok(b) => {
                            if datum::compared(cx.symbols, Compare::Eq, a, b) == Datum::Bool(true) {
                                Ok(Datum::Null)
                            } else {
                                Ok(a)
                            }
                        },
                    }
                },
            }
        },
    }
}

/// Whether `x` is equal to one of several values: unknown if it is equal to none
/// and one of the comparisons is unknown.
pub open spec fn list_member(
    cx: CxModel,
    env: Env,
    group: Option<Seq<Tuple>>,
    x: Datum,
    es: Exprs,
    unknown: bool,
) -> Result<Datum, Fault>
    decreases es, 0int, 0int,
{
    match es {
        Exprs::Nil => if unknown {
            Ok(Datum::Null)
        } else {
            Ok(Datum::Bool(false))
        },
        Exprs::Cons(e, rest) => {
            match expr_value(cx, env, group, *e) {
                Err(f) => Err(f),
                Ok(d) => {
                    let c: Datum = datum::compared(cx.symbols, Compare::Eq, x, d);
                    if c == Datum::Bool(true) {
                        Ok(Datum::Bool(true))
                    } else {
                        list_member(cx, env, group, x, *rest, unknown || c == Datum::Null)
                    }
                },
            }
        },
    }
}

/// The value of the first branch of a case expression whose condition holds.
pub open spec fn when_value(
    cx: CxModel,
    env: Env,
    group: Option<Seq<Tuple>>,
    ws: Whens,
) -> Result<Option<Datum>, Fault>
    decreases ws, 0int, 0int,
{
    match ws {
        Whens::Nil => Ok(None),
        Whens::Cons(c, x, rest) => {
            match expr_value(cx, env, group, *c) {
                Err(f) => Err(f),
                Ok(d) => {
                    if d == Datum::Bool(true) {
                        match expr_value(cx, env, group, *x) {
                            Err(f) => Err(f),
                            Ok(v) => {
                                Ok(Some(v))
                            },
                        }
                    } else {
                        when_value(cx, env, group, *rest)
                    }
                },
            }
        },
    }
}

/// The value of the first branch of a case expression whose value is equal to `x`.
pub open spec fn switch_value(
    cx: CxModel,
    env: Env,
    group: Option<Seq<Tuple>>,
    x: Datum,
    ws: Whens,
) -> Result<Option<Datum>, Fault>
    decreases ws, 0int, 0int,
{
    match ws {
        Whens::Nil => Ok(None),
        Whens::Cons(c, y, rest) => {
            match expr_value(cx, env, group, *c) {
                Err(f) => Err(f),
                Ok(d) => {
                    if datum::compared(cx.symbols, Compare::Eq, x, d) == Datum::Bool(true) {
                        match expr_value(cx, env, group, *y) {
                            Err(f) => Err(f),
                            Ok(v) => {
                                Ok(Some(v))
                            },
                        }
                    } else {
                        switch_value(cx, env, group, x, *rest)
                    }
                },
            }
        },
    }
}

/// The first of several values that is not null.
pub open spec fn first_value(
    cx: CxModel,
    env: Env,
    group: Option<Seq<Tuple>>,
    es: Exprs,
) -> Result<Datum, Fault>
    decreases es, 0int, 0int,
{
    match es {
        Exprs::Nil => Ok(Datum::Null),
        Exprs::Cons(e, rest) => {
            match expr_value(cx, env, group, *e) {
                Err(f) => Err(f),
                Ok(d) => {
                    if d == Datum::Null {
                        first_value(cx, env, group, *rest)
                    } else {
                        Ok(d)
                    }
                },
            }
        },
    }
}

/// The values of several expressions.
pub open spec fn exprs_value(
    cx: CxModel,
    env: Env,
    group: Option<Seq<Tuple>>,
    es: Exprs,
) -> Result<Tuple, Fault>
    decreases es, 0int, 0int,
{
    match es {
        Exprs::Nil => Ok(Tuple::Nil),
        Exprs::Cons(e, rest) => {
            match expr_value(cx, env, group, *e) {
                Err(f) => Err(f),
                Ok(d) => {
                    match exprs_value(cx, env, group, *rest) {
                        Err(f) => Err(f),
                        Ok(more) => {
                            Ok(Tuple::Cons(d, Box::new(more)))
                        },
                    }
                },
            }
        },
    }
}

/// The cells of one entry of a select list.
pub open spec fn item_value(
    cx: CxModel,
    env: Env,
    group: Option<Seq<Tuple>>,
    item: Item,
) -> Result<Tuple, Fault>
    decreases item, 0int, 0int,
{
    match item {
        Item::Star => match env {
            Env::Empty => Ok(Tuple::Nil),
            Env::Frame(fs, row, _) => Ok(fields::visible(*fs, *row)),
        },
        Item::TableStar(q) => match env {
            Env::Empty => Ok(Tuple::Nil),
            Env::Frame(fs, row, _) => Ok(fields::cells_of(*fs, *row, q)),
        },
        Item::Expr(e, _) => {
            match expr_value(cx, env, group, *e) {
                Err(f) => Err(f),
                Ok(d) => {
                    Ok(Tuple::Cons(d, Box::new(Tuple::Nil)))
                },
            }
        },
    }
}

/// The cells of a select list.
pub open spec fn items_value(
    cx: CxModel,
    env: Env,
    group: Option<Seq<Tuple>>,
    items: Items,
) -> Result<Tuple, Fault>
    decreases items, 0int, 0int,
{
    match items {
        Items::Nil => Ok(Tuple::Nil),
        Items::Cons(item, rest) => {
            match item_value(cx, env, group, item) {
                Err(f) => Err(f),
                Ok(first) => {
                    match items_value(cx, env, group, *rest) {
                        Err(f) => Err(f),
                        Ok(more) => {
                            Ok(datum::tuple_append(first, more))
                        },
                    }
                },
            }
        },
    }
}

/// The values that a result is sorted by. A key that names a column of the result
/// has the value that stands there.
pub open spec fn order_keys(
    cx: CxModel,
    env: Env,
    group: Option<Seq<Tuple>>,
    fs: Fields,
    cells: Tuple,
    os: Orders,
) -> Result<Tuple, Fault>
    decreases os, 0int, 0int,
{
    match os {
        Orders::Nil => Ok(Tuple::Nil),
        Orders::Cons(e, _, _, rest) => {
            match order_key(cx, env, group, fs, cells, *e) {
                Err(f) => Err(f),
                Ok(d) => {
                    match order_keys(cx, env, group, fs, cells, *rest) {
                        Err(f) => Err(f),
                        Ok(more) => {
                            Ok(Tuple::Cons(d, Box::new(more)))
                        },
                    }
                },
            }
        },
    }
}

/// The value of one sort key.
pub open spec fn order_key(
    cx: CxModel,
    env: Env,
    group: Option<Seq<Tuple>>,
    fs: Fields,
    cells: Tuple,
    e: Expr,
) -> Result<Datum, Fault>
    decreases e, 1int, 0int,
{
    match analyze::output_place(fs, e) {
        Some(Some(i)) => Ok(datum::cell(cells, i as nat)),
        Some(None) => Err(Fault::OrderPosition),
        None => expr_value(cx, env, group, e),
    }
}

/// The values that a result is sorted by, where all keys name its columns.
pub open spec fn output_keys(fs: Fields, os: Orders, row: Tuple) -> Tuple
    decreases os,
{
    match os {
        Orders::Nil => Tuple::Nil,
        Orders::Cons(e, _, _, rest) => {
            let d: Datum = match analyze::output_place(fs, *e) {
                Some(Some(i)) => datum::cell(row, i as nat),
                _ => Datum::Null,
            };
            Tuple::Cons(d, Box::new(output_keys(fs, *rest, row)))
        },
    }
}

/// The sort keys of a row in a window.
pub open spec fn window_keys(cx: CxModel, env: Env, os: Orders) -> Result<Tuple, Fault>
    decreases os, 0int, 0int,
{
    match os {
        Orders::Nil => Ok(Tuple::Nil),
        Orders::Cons(e, _, _, rest) => {
            match expr_value(cx, env, None, *e) {
                Err(f) => Err(f),
                Ok(d) => {
                    match window_keys(cx, env, *rest) {
                        Err(f) => Err(f),
                        Ok(more) => {
                            Ok(Tuple::Cons(d, Box::new(more)))
                        },
                    }
                },
            }
        },
    }
}

/// What a window is made of for one row: the values that its rows share, the sort
/// keys, and the argument in front of the row itself.
pub open spec fn window_row(cx: CxModel, env: Env, over: Over, row: Tuple) -> Result<Keyed, Fault>
    decreases over, 0int, 0int,
{
    match exprs_value(cx, env, None, over.partition) {
        Err(f) => Err(f),
        Ok(on) => {
            match window_keys(cx, env, over.orders) {
                Err(f) => Err(f),
                Ok(keys) => {
                    match expr_value(cx, env, None, over.arg) {
                        Err(f) => Err(f),
                        Ok(d) => {
                            Ok(Keyed { on, keys, out: Tuple::Cons(d, Box::new(row)) })
                        },
                    }
                },
            }
        },
    }
}

/// The values by which duplicates of a result are told.
pub open spec fn distinct_value(
    cx: CxModel,
    env: Env,
    group: Option<Seq<Tuple>>,
    cells: Tuple,
    d: Distinct,
) -> Result<Tuple, Fault>
    decreases d, 0int, 0int,
{
    match d {
        Distinct::No => Ok(Tuple::Nil),
        Distinct::Rows => Ok(cells),
        Distinct::On(es) => exprs_value(cx, env, group, *es),
    }
}

/// The result that a query block makes of one row or one group.
pub open spec fn block_output(
    cx: CxModel,
    env: Env,
    group: Option<Seq<Tuple>>,
    fs: Fields,
    s: Select,
) -> Result<Keyed, Fault>
    decreases s, 0int, 0int,
{
    match items_value(cx, env, group, s.items) {
        Err(f) => Err(f),
        Ok(cells) => {
            match distinct_value(cx, env, group, cells, s.distinct) {
                Err(f) => Err(f),
                Ok(on) => {
                    match order_keys(cx, env, group, fs, cells, s.orders) {
                        Err(f) => Err(f),
                        Ok(keys) => {
                            Ok(Keyed { on, keys, out: cells })
                        },
                    }
                },
            }
        },
    }
}

/// Whether a left and a right row agree in the columns that a join merges.
pub open spec fn pairs_equal(t: Seq<Seq<char>>, ps: Pairs, l: Tuple, r: Tuple) -> bool
    decreases ps,
{
    match ps {
        Pairs::Nil => true,
        Pairs::Cons(i, j, rest) => datum::compared(
            t,
            Compare::Eq,
            datum::cell(l, i as nat),
            datum::cell(r, j as nat),
        ) == Datum::Bool(true) && pairs_equal(t, *rest, l, r),
    }
}

/// Whether a join keeps a pair of rows.
pub open spec fn pair_holds(
    cx: CxModel,
    env: Env,
    fs: Fields,
    on: JoinOn,
    ps: Pairs,
    l: Tuple,
    r: Tuple,
) -> Result<bool, Fault>
    decreases on, 0int, 0int,
{
    match on {
        JoinOn::Always => Ok(true),
        JoinOn::On(e) => {
            let row: Tuple = fields::joined(ps, l, r);
            match expr_value(cx, Env::Frame(&fs, &row, &env), None, *e) {
                Err(f) => Err(f),
                Ok(d) => {
                    Ok(d == Datum::Bool(true))
                },
            }
        },
        _ => Ok(pairs_equal(cx.symbols, ps, l, r)),
    }
}

/// The rows of a source with their columns.
pub open spec fn source_rel(cx: CxModel, env: Env, src: Source) -> Result<RelModel, Fault>
    decreases src, 0int, 0int,
{
    match src {
        Source::Nothing => Ok(no_source()),
        Source::Table(n, alias) => {
            let q: usize = match alias {
                Some(a) => a,
                None => n.name,
            };
            match named_rel(cx, n, q) {
                Some(r) => Ok(r),
                None => match catalog::resolved(cx.db.tables, cx.path, n) {
                    None => Err(Fault::UndefinedTable { schema: n.schema, name: n.name }),
                    Some(i) => Ok(table_rel(cx.db.tables[i as int], q)),
                },
            }
        },
        Source::Sub(q, alias, cols) => {
            match query_rows(cx, env, *q) {
                Err(f) => Err(f),
                Ok(rows) => {
                    match analyze::query_fields(cx, env, *q) {
                        Err(f) => Err(f),
                        Ok(fs) => {
                            Ok(
                                RelModel {
                                    fields: fields::requalified(fields::renamed(fs, *cols), alias),
                                    rows: rows,
                                },
                            )
                        },
                    }
                },
            }
        },
        Source::Join(kind, a, b, on) => {
            match source_rel(cx, env, *a) {
                Err(f) => Err(f),
                Ok(l) => {
                    match source_rel(cx, env, *b) {
                        Err(f) => Err(f),
                        Ok(r) => {
                            match analyze::join_pairs(l.fields, r.fields, on) {
                                Err(f) => Err(f),
                                Ok(ps) => {
                                    let fs: Fields = analyze::join_fields(kind, l.fields, r.fields, on);
                                    match join_rows(cx, env, kind, fs, on, ps, l, r) {
                                        Err(f) => Err(f),
                                        Ok(rows) => {
                                            Ok(RelModel { fields: fs, rows: rows })
                                        },
                                    }
                                },
                            }
                        },
                    }
                },
            }
        },
    }
}

pub fn eval_arith_value(r: Result<Datum, ArithFault>) -> (out: Result<Datum, Fault>)
    ensures
        out == arith_value(r),
{
    match r {
        Ok(d) => Ok(d),
        Err(ArithFault::NotNumbers) => Err(Fault::OperatorMissing),
        Err(ArithFault::DivisionByZero) => Err(Fault::DivisionByZero),
        Err(ArithFault::OutOfRange) => Err(Fault::OutOfRange),
    }
}

pub fn eval_cast_value(t: &Symbols, d: Datum, ty: DataType) -> (out: Result<Datum, Fault>)
    ensures
        out == cast_value(t@, d, ty),
{
    match (d, ty) {
        (Datum::Null, _) => Ok(Datum::Null),
        (Datum::Int(_), DataType::Int) => Ok(d),
        (Datum::Int(n), DataType::BigInt) => Ok(Datum::Big(n as i64)),
        (Datum::Big(_), DataType::BigInt) => Ok(d),
        (Datum::Big(n), DataType::Int) => if -2147483648 <= n && n <= 2147483647 {
            Ok(Datum::Int(n as i32))
        } else {
            Err(Fault::OutOfRange)
        },
        (Datum::Bool(_), DataType::Boolean) => Ok(d),
        (Datum::Text(_), DataType::Text) => Ok(d),
        (Datum::Text(s), DataType::BigInt) => match t.integer(s) {
            Some(n) => Ok(Datum::Big(n)),
            None => Err(Fault::InvalidNumber { value: s }),
        },
        (Datum::Text(s), DataType::Int) => match t.integer(s) {
            Some(n) => if -2147483648 <= n && n <= 2147483647 {
                Ok(Datum::Int(n as i32))
            } else {
                Err(Fault::OutOfRange)
            },
            None => Err(Fault::InvalidNumber { value: s }),
        },
        _ => Err(Fault::OperatorMissing),
    }
}

pub fn eval_negated(d: Datum, negate: bool) -> (out: Datum)
    ensures
        out == negated(d, negate),
{
    if negate {
        datum::negate3(d)
    } else {
        d
    }
}

pub fn eval_expr_value(
    cx: &Cx,
    env: &Env,
    group: Option<&Vec<Tuple>>,
    e: &Expr,
) -> (out: Result<Datum, Fault>)
    ensures
        out == expr_value(cx@, *env, group_view(group), *e),
    decreases e, 0int, 0int,
{
    match e {
        Expr::Lit(d) => Ok(*d),
        Expr::Col(q, n) => match env.cell(*q, *n) {
            None => Err(Fault::UndefinedColumn { table: *q, name: *n }),
            Some(Err(_)) => Err(Fault::AmbiguousColumn { name: *n }),
            Some(Ok(d)) => Ok(d),
        },
        Expr::Not(x) => {
            let d: Datum = eval_expr_value(cx, env, group, x)?;
            Ok(datum::negate3(d))
        },
        Expr::Negate(x) => {
            let d: Datum = eval_expr_value(cx, env, group, x)?;
            eval_arith_value(datum::calculate(Arith::Minus, Datum::Int(0), d))
        },
        Expr::And(x, y) => {
            let a: Datum = eval_expr_value(cx, env, group, x)?;
            if a == Datum::Bool(false) {
                Ok(Datum::Bool(false))
            } else {
                let b: Datum = eval_expr_value(cx, env, group, y)?;
                Ok(datum::both3(a, b))
            }
        },
        Expr::Or(x, y) => {
            let a: Datum = eval_expr_value(cx, env, group, x)?;
            if a == Datum::Bool(true) {
                Ok(Datum::Bool(true))
            } else {
                let b: Datum = eval_expr_value(cx, env, group, y)?;
                Ok(datum::either3(a, b))
            }
        },
        Expr::Compare(c, x, y) => {
            let a: Datum = eval_expr_value(cx, env, group, x)?;
            let b: Datum = eval_expr_value(cx, env, group, y)?;
            Ok(datum::compare(cx.symbols, *c, a, b))
        },
        Expr::Arith(op, x, y) => {
            let a: Datum = eval_expr_value(cx, env, group, x)?;
            let b: Datum = eval_expr_value(cx, env, group, y)?;
            eval_arith_value(datum::calculate(*op, a, b))
        },
        Expr::IsNull(x, negate) => {
            let d: Datum = eval_expr_value(cx, env, group, x)?;
            Ok(Datum::Bool((d == Datum::Null) != *negate))
        },
        Expr::InList(x, list, negate) => {
            let d: Datum = eval_expr_value(cx, env, group, x)?;
            let m: Datum = eval_list_member(cx, env, group, d, list, false)?;
            Ok(eval_negated(m, *negate))
        },
        Expr::InQuery(x, q, negate) => {
            let d: Datum = eval_expr_value(cx, env, group, x)?;
            let rows: Vec<Tuple> = eval_query_rows(cx, env, q)?;
            Ok(eval_negated(eval_member(cx.symbols, d, &rows), *negate))
        },
        Expr::Between(x, y, z, negate) => {
            let d: Datum = eval_expr_value(cx, env, group, x)?;
            let low: Datum = eval_expr_value(cx, env, group, y)?;
            let high: Datum = eval_expr_value(cx, env, group, z)?;
            Ok(
                eval_negated(
                    datum::both3(
                        datum::compare(cx.symbols, Compare::Ge, d, low),
                        datum::compare(cx.symbols, Compare::Le, d, high),
                    ),
                    *negate,
                ),
            )
        },
        Expr::Exists(q) => {
            let rows: Vec<Tuple> = eval_query_rows(cx, env, q)?;
            Ok(Datum::Bool(rows.len() > 0))
        },
        Expr::Scalar(q) => {
            let rows: Vec<Tuple> = eval_query_rows(cx, env, q)?;
            if rows.len() == 0 {
                Ok(Datum::Null)
            } else if rows.len() == 1 {
                Ok(rows[0].cell_at(0))
            } else {
                Err(Fault::MoreThanOneRow)
            }
        },
        Expr::Case(whens, otherwise) => {
            let found: Option<Datum> = eval_when_value(cx, env, group, whens)?;
            match found {
                Some(d) => Ok(d),
                None => eval_expr_value(cx, env, group, otherwise),
            }
        },
        Expr::Coalesce(list) => eval_first_value(cx, env, group, list),
        Expr::CountRows => match group {
            None => Err(Fault::MisplacedAggregate),
            Some(rows) => Ok(Datum::Big(rows.len() as i64)),
        },
        Expr::Agg(f, once, x) => match (env, group) {
            (Env::Frame(fs, _, outer), Some(rows)) => {
                let vs: Vec<Datum> = eval_argument_values(cx, outer, fs, x, rows)?;
                eval_aggregate(cx.symbols, *f, *once, &vs)
            },
            _ => Err(Fault::MisplacedAggregate),
        },
        Expr::Next(_, _) => Err(Fault::MisplacedDraw),
        Expr::Window(f, _, over) => match (env, group) {
            (Env::Frame(fs, row, outer), Some(rows)) => {
                let me: Keyed = eval_window_row(cx, env, over, row)?;
                let ks: Vec<Keyed> = eval_window_rows(cx, outer, fs, over, rows)?;
                window::value(cx.symbols, *f, &over.orders, &me, &ks)
            },
            _ => Err(Fault::MisplacedWindow),
        },
        Expr::Cast(x, ty) => {
            let d: Datum = eval_expr_value(cx, env, group, x)?;
            if *ty == DataType::Text {
                strings::call(cx.symbols, TextFn::Cast, d, Datum::Null, Datum::Null)
            } else {
                eval_cast_value(cx.symbols, d, *ty)
            }
        },
        Expr::Default => Err(Fault::MisplacedDefault),
        Expr::Param(k) => match cx.params {
            Params::Given(values) => match analyze::value_of_param(values, *k) {
                None => Err(Fault::Parameter),
                Some(d) => Ok(d),
            },
            _ => Err(Fault::Parameter),
        },
        Expr::Like(x, y, negate) => {
            let a: Datum = eval_expr_value(cx, env, group, x)?;
            let b: Datum = eval_expr_value(cx, env, group, y)?;
            Ok(eval_negated(eval_like_value(cx.symbols, a, b), *negate))
        },
        Expr::Switch(x, whens, otherwise) => {
            let d: Datum = eval_expr_value(cx, env, group, x)?;
            let found: Option<Datum> = eval_switch_value(cx, env, group, d, whens)?;
            match found {
                Some(v) => Ok(v),
                None => eval_expr_value(cx, env, group, otherwise),
            }
        },
        Expr::Call(f, _, x, y, z) => {
            let a: Datum = eval_expr_value(cx, env, group, x)?;
            let b: Datum = eval_expr_value(cx, env, group, y)?;
            let c: Datum = eval_expr_value(cx, env, group, z)?;
            strings::call(cx.symbols, *f, a, b, c)
        },
        Expr::NullIf(x, y) => {
            let a: Datum = eval_expr_value(cx, env, group, x)?;
            let b: Datum = eval_expr_value(cx, env, group, y)?;
            if datum::compare(cx.symbols, Compare::Eq, a, b) == Datum::Bool(true) {
                Ok(Datum::Null)
            } else {
                Ok(a)
            }
        },
    }
}

pub fn eval_list_member(
    cx: &Cx,
    env: &Env,
    group: Option<&Vec<Tuple>>,
    x: Datum,
    es: &Exprs,
    unknown: bool,
) -> (out: Result<Datum, Fault>)
    ensures
        out == list_member(cx@, *env, group_view(group), x, *es, unknown),
    decreases es, 0int, 0int,
{
    match es {
        Exprs::Nil => if unknown {
            Ok(Datum::Null)
        } else {
            Ok(Datum::Bool(false))
        },
        Exprs::Cons(e, rest) => {
            let d: Datum = eval_expr_value(cx, env, group, e)?;
            let c: Datum = datum::compare(cx.symbols, Compare::Eq, x, d);
            if c == Datum::Bool(true) {
                Ok(Datum::Bool(true))
            } else {
                eval_list_member(cx, env, group, x, rest, unknown || c == Datum::Null)
            }
        },
    }
}

pub fn eval_when_value(
    cx: &Cx,
    env: &Env,
    group: Option<&Vec<Tuple>>,
    ws: &Whens,
) -> (out: Result<Option<Datum>, Fault>)
    ensures
        out == when_value(cx@, *env, group_view(group), *ws),
    decreases ws, 0int, 0int,
{
    match ws {
        Whens::Nil => Ok(None),
        Whens::Cons(c, x, rest) => {
            let d: Datum = eval_expr_value(cx, env, group, c)?;
            if d == Datum::Bool(true) {
                let v: Datum = eval_expr_value(cx, env, group, x)?;
                Ok(Some(v))
            } else {
                eval_when_value(cx, env, group, rest)
            }
        },
    }
}

pub fn eval_switch_value(
    cx: &Cx,
    env: &Env,
    group: Option<&Vec<Tuple>>,
    x: Datum,
    ws: &Whens,
) -> (out: Result<Option<Datum>, Fault>)
    ensures
        out == switch_value(cx@, *env, group_view(group), x, *ws),
    decreases ws, 0int, 0int,
{
    match ws {
        Whens::Nil => Ok(None),
        Whens::Cons(c, y, rest) => {
            let d: Datum = eval_expr_value(cx, env, group, c)?;
            if datum::compare(cx.symbols, Compare::Eq, x, d) == Datum::Bool(true) {
                let v: Datum = eval_expr_value(cx, env, group, y)?;
                Ok(Some(v))
            } else {
                eval_switch_value(cx, env, group, x, rest)
            }
        },
    }
}

pub fn eval_first_value(
    cx: &Cx,
    env: &Env,
    group: Option<&Vec<Tuple>>,
    es: &Exprs,
) -> (out: Result<Datum, Fault>)
    ensures
        out == first_value(cx@, *env, group_view(group), *es),
    decreases es, 0int, 0int,
{
    match es {
        Exprs::Nil => Ok(Datum::Null),
        Exprs::Cons(e, rest) => {
            let d: Datum = eval_expr_value(cx, env, group, e)?;
            if d == Datum::Null {
                eval_first_value(cx, env, group, rest)
            } else {
                Ok(d)
            }
        },
    }
}

pub fn eval_exprs_value(
    cx: &Cx,
    env: &Env,
    group: Option<&Vec<Tuple>>,
    es: &Exprs,
) -> (out: Result<Tuple, Fault>)
    ensures
        out == exprs_value(cx@, *env, group_view(group), *es),
    decreases es, 0int, 0int,
{
    match es {
        Exprs::Nil => Ok(Tuple::Nil),
        Exprs::Cons(e, rest) => {
            let d: Datum = eval_expr_value(cx, env, group, e)?;
            let more: Tuple = eval_exprs_value(cx, env, group, rest)?;
            Ok(Tuple::Cons(d, Box::new(more)))
        },
    }
}

pub fn eval_item_value(
    cx: &Cx,
    env: &Env,
    group: Option<&Vec<Tuple>>,
    item: &Item,
) -> (out: Result<Tuple, Fault>)
    ensures
        out == item_value(cx@, *env, group_view(group), *item),
    decreases item, 0int, 0int,
{
    match item {
        Item::Star => match env {
            Env::Empty => Ok(Tuple::Nil),
            Env::Frame(fs, row, _) => Ok(fs.visible_cells(row)),
        },
        Item::TableStar(q) => match env {
            Env::Empty => Ok(Tuple::Nil),
            Env::Frame(fs, row, _) => Ok(fs.cells_under(row, *q)),
        },
        Item::Expr(e, _) => {
            let d: Datum = eval_expr_value(cx, env, group, e)?;
            Ok(Tuple::Cons(d, Box::new(Tuple::Nil)))
        },
    }
}

pub fn eval_items_value(
    cx: &Cx,
    env: &Env,
    group: Option<&Vec<Tuple>>,
    items: &Items,
) -> (out: Result<Tuple, Fault>)
    ensures
        out == items_value(cx@, *env, group_view(group), *items),
    decreases items, 0int, 0int,
{
    match items {
        Items::Nil => Ok(Tuple::Nil),
        Items::Cons(item, rest) => {
            let first: Tuple = eval_item_value(cx, env, group, item)?;
            let more: Tuple = eval_items_value(cx, env, group, rest)?;
            Ok(first.append(&more))
        },
    }
}

pub fn eval_order_keys(
    cx: &Cx,
    env: &Env,
    group: Option<&Vec<Tuple>>,
    fs: &Fields,
    cells: &Tuple,
    os: &Orders,
) -> (out: Result<Tuple, Fault>)
    ensures
        out == order_keys(cx@, *env, group_view(group), *fs, *cells, *os),
    decreases os, 0int, 0int,
{
    match os {
        Orders::Nil => Ok(Tuple::Nil),
        Orders::Cons(e, _, _, rest) => {
            let d: Datum = eval_order_key(cx, env, group, fs, cells, e)?;
            let more: Tuple = eval_order_keys(cx, env, group, fs, cells, rest)?;
            Ok(Tuple::Cons(d, Box::new(more)))
        },
    }
}

pub fn eval_order_key(
    cx: &Cx,
    env: &Env,
    group: Option<&Vec<Tuple>>,
    fs: &Fields,
    cells: &Tuple,
    e: &Expr,
) -> (out: Result<Datum, Fault>)
    ensures
        out == order_key(cx@, *env, group_view(group), *fs, *cells, *e),
    decreases e, 1int, 0int,
{
    match analyze::infer_output_place(fs, e) {
        Some(Some(i)) => Ok(cells.cell_at(i)),
        Some(None) => Err(Fault::OrderPosition),
        None => eval_expr_value(cx, env, group, e),
    }
}

pub fn eval_output_keys(fs: &Fields, os: &Orders, row: &Tuple) -> (out: Tuple)
    ensures
        out == output_keys(*fs, *os, *row),
    decreases os,
{
    match os {
        Orders::Nil => Tuple::Nil,
        Orders::Cons(e, _, _, rest) => {
            let d: Datum = match analyze::infer_output_place(fs, e) {
                Some(Some(i)) => row.cell_at(i),
                _ => Datum::Null,
            };
            Tuple::Cons(d, Box::new(eval_output_keys(fs, rest, row)))
        },
    }
}

pub fn eval_window_keys(cx: &Cx, env: &Env, os: &Orders) -> (out: Result<Tuple, Fault>)
    ensures
        out == window_keys(cx@, *env, *os),
    decreases os, 0int, 0int,
{
    match os {
        Orders::Nil => Ok(Tuple::Nil),
        Orders::Cons(e, _, _, rest) => {
            let d: Datum = eval_expr_value(cx, env, None, e)?;
            let more: Tuple = eval_window_keys(cx, env, rest)?;
            Ok(Tuple::Cons(d, Box::new(more)))
        },
    }
}

pub fn eval_window_row(cx: &Cx, env: &Env, over: &Over, row: &Tuple) -> (out: Result<Keyed, Fault>)
    ensures
        out == window_row(cx@, *env, *over, *row),
    decreases over, 0int, 0int,
{
    let on: Tuple = eval_exprs_value(cx, env, None, &over.partition)?;
    let keys: Tuple = eval_window_keys(cx, env, &over.orders)?;
    let d: Datum = eval_expr_value(cx, env, None, &over.arg)?;
    Ok(Keyed { on, keys, out: Tuple::Cons(d, Box::new(row.copy())) })
}

pub fn eval_distinct_value(
    cx: &Cx,
    env: &Env,
    group: Option<&Vec<Tuple>>,
    cells: &Tuple,
    d: &Distinct,
) -> (out: Result<Tuple, Fault>)
    ensures
        out == distinct_value(cx@, *env, group_view(group), *cells, *d),
    decreases d, 0int, 0int,
{
    match d {
        Distinct::No => Ok(Tuple::Nil),
        Distinct::Rows => Ok(cells.copy()),
        Distinct::On(es) => eval_exprs_value(cx, env, group, es),
    }
}

pub fn eval_block_output(
    cx: &Cx,
    env: &Env,
    group: Option<&Vec<Tuple>>,
    fs: &Fields,
    s: &Select,
) -> (out: Result<Keyed, Fault>)
    ensures
        out == block_output(cx@, *env, group_view(group), *fs, *s),
    decreases s, 0int, 0int,
{
    let cells: Tuple = eval_items_value(cx, env, group, &s.items)?;
    let on: Tuple = eval_distinct_value(cx, env, group, &cells, &s.distinct)?;
    let keys: Tuple = eval_order_keys(cx, env, group, fs, &cells, &s.orders)?;
    Ok(Keyed { on, keys, out: cells })
}

pub fn eval_pairs_equal(t: &Symbols, ps: &Pairs, l: &Tuple, r: &Tuple) -> (out: bool)
    ensures
        out == pairs_equal(t@, *ps, *l, *r),
    decreases ps,
{
    match ps {
        Pairs::Nil => true,
        Pairs::Cons(i, j, rest) => datum::compare(
            t,
            Compare::Eq,
            l.cell_at(*i),
            r.cell_at(*j),
        ) == Datum::Bool(true) && eval_pairs_equal(t, rest, l, r),
    }
}

pub fn eval_pair_holds(
    cx: &Cx,
    env: &Env,
    fs: &Fields,
    on: &JoinOn,
    ps: &Pairs,
    l: &Tuple,
    r: &Tuple,
) -> (out: Result<bool, Fault>)
    ensures
        out == pair_holds(cx@, *env, *fs, *on, *ps, *l, *r),
    decreases on, 0int, 0int,
{
    match on {
        JoinOn::Always => Ok(true),
        JoinOn::On(e) => {
            let row: Tuple = ps.join(l, r);
            let d: Datum = eval_expr_value(cx, &Env::Frame(fs, &row, env), None, e)?;
            Ok(d == Datum::Bool(true))
        },
        _ => Ok(eval_pairs_equal(cx.symbols, ps, l, r)),
    }
}

pub fn eval_source_rel(cx: &Cx, env: &Env, src: &Source) -> (out: Result<Rel, Fault>)
    ensures
        result_view_relr(out) == source_rel(cx@, *env, *src),
    decreases src, 0int, 0int,
{
    match src {
        Source::Nothing => Ok(eval_no_source()),
        Source::Table(n, alias) => {
            let q: usize = match alias {
                Some(a) => *a,
                None => n.name,
            };
            match eval_named_rel(cx, *n, q) {
                Some(r) => Ok(r),
                None => match cx.db.resolve(cx.path, *n) {
                    None => Err(Fault::UndefinedTable { schema: n.schema, name: n.name }),
                    Some(i) => Ok(eval_table_rel(&cx.db.tables[i], q)),
                },
            }
        },
        Source::Sub(q, alias, cols) => {
            let rows: Vec<Tuple> = eval_query_rows(cx, env, q)?;
            let fs: Fields = analyze::infer_query_fields(cx, env, q)?;
            Ok(Rel { fields: fs.rename(cols).under(*alias), rows: rows })
        },
        Source::Join(kind, a, b, on) => {
            let l: Rel = eval_source_rel(cx, env, a)?;
            let r: Rel = eval_source_rel(cx, env, b)?;
            let ps: Pairs = analyze::infer_join_pairs(&l.fields, &r.fields, on)?;
            let fs: Fields = analyze::infer_join_fields(*kind, &l.fields, &r.fields, on);
            let rows: Vec<Tuple> = eval_join_rows(cx, env, *kind, &fs, on, &ps, &l, &r)?;
            Ok(Rel { fields: fs, rows: rows })
        },
    }
}

pub fn eval_kept_rows(cx: &Cx, env: &Env, fs: &Fields, e: &Expr, rows: &Vec<Tuple>) -> (out: Result<
    Vec<Tuple>,
    Fault,
>)
    ensures
        result_view_rowsr(out) == kept_rows(cx@, *env, *fs, *e, rows@, 0, Seq::empty()),
    decreases e, 1int, 0int,
{
    let ghost goal = kept_rows(cx@, *env, *fs, *e, rows@, 0, Seq::empty());
    let mut acc: Vec<Tuple> = Vec::new();
    let mut i: usize = 0;
    while i < rows.len()
        invariant
            i <= rows.len(),
            goal == kept_rows(cx@, *env, *fs, *e, rows@, 0, Seq::empty()),
            goal == kept_rows(cx@, *env, *fs, *e, rows@, i as int, acc@),
        decreases rows.len() - i,
    {
        let d: Datum = eval_expr_value(cx, &Env::Frame(fs, &rows[i], env), None, e)?;
        if d == Datum::Bool(true) {
            acc.push(rows[i].copy());
        }
        i += 1;
    }
    Ok(acc)
}

fn eval_argument_values(cx: &Cx, env: &Env, fs: &Fields, e: &Expr, rows: &Vec<Tuple>) -> (out:
    Result<Vec<Datum>, Fault>)
    ensures
        result_view_datumsr(out) == argument_values(cx@, *env, *fs, *e, rows@, 0, Seq::empty()),
    decreases e, 1int, 0int,
{
    let ghost goal = argument_values(cx@, *env, *fs, *e, rows@, 0, Seq::empty());
    let mut acc: Vec<Datum> = Vec::new();
    let mut i: usize = 0;
    while i < rows.len()
        invariant
            i <= rows.len(),
            goal == argument_values(cx@, *env, *fs, *e, rows@, 0, Seq::empty()),
            goal == argument_values(cx@, *env, *fs, *e, rows@, i as int, acc@),
        decreases rows.len() - i,
    {
        let d: Datum = eval_expr_value(cx, &Env::Frame(fs, &rows[i], env), None, e)?;
        if d != Datum::Null {
            acc.push(d);
        }
        i += 1;
    }
    Ok(acc)
}

fn eval_distinct_values(vs: &Vec<Datum>) -> (out: Vec<Datum>)
    ensures
        out@ == distinct_values(vs@),
{
    let mut r: Vec<Datum> = Vec::new();
    let mut i: usize = 0;
    while i < vs.len()
        invariant
            i <= vs.len(),
            r@ == distinct_values(vs@.take(i as int)),
        decreases vs.len() - i,
    {
        proof {
            assert(vs@.take(i + 1).drop_last() =~= vs@.take(i as int));
        }
        let mut seen: bool = false;
        let mut j: usize = 0;
        while j < r.len()
            invariant
                i < vs.len(),
                j <= r.len(),
                seen <==> exists|k: int| 0 <= k < j && r@[k] == vs@[i as int],
            decreases r.len() - j,
        {
            if r[j] == vs[i] {
                seen = true;
                assert(r@[j as int] == vs@[i as int]);
            }
            j += 1;
        }
        if !seen {
            r.push(vs[i]);
        }
        i += 1;
    }
    proof {
        assert(vs@.take(i as int) =~= vs@);
    }
    r
}

fn eval_sum(vs: &Vec<Datum>) -> (out: Result<Datum, Fault>)
    ensures
        out == sum_from(vs@, 0, Datum::Null),
{
    let mut acc: Datum = Datum::Null;
    let mut i: usize = 0;
    while i < vs.len()
        invariant
            i <= vs.len(),
            sum_from(vs@, 0, Datum::Null) == sum_from(vs@, i as int, acc),
        decreases vs.len() - i,
    {
        if acc == Datum::Null {
            acc = vs[i];
        } else {
            acc = eval_arith_value(datum::calculate(Arith::Plus, acc, vs[i]))?;
        }
        i += 1;
    }
    Ok(acc)
}

fn eval_extreme(t: &Symbols, least: bool, vs: &Vec<Datum>) -> (out: Datum)
    ensures
        out == extreme_from(t@, least, vs@, 0, Datum::Null),
{
    let mut acc: Datum = Datum::Null;
    let mut i: usize = 0;
    while i < vs.len()
        invariant
            i <= vs.len(),
            extreme_from(t@, least, vs@, 0, Datum::Null) == extreme_from(
                t@,
                least,
                vs@,
                i as int,
                acc,
            ),
        decreases vs.len() - i,
    {
        let r: Rank = datum::rank_of(t, vs[i], acc);
        if acc == Datum::Null || (least && r == Rank::Less) || (!least && r == Rank::More) {
            acc = vs[i];
        }
        i += 1;
    }
    acc
}

pub fn eval_aggregate(t: &Symbols, f: AggFn, once: bool, all: &Vec<Datum>) -> (out: Result<
    Datum,
    Fault,
>)
    ensures
        out == aggregate(t@, f, once, all@),
{
    let vs: Vec<Datum> = if once {
        eval_distinct_values(all)
    } else {
        catalog::copy_values(all)
    };
    match f {
        AggFn::Count => Ok(Datum::Big(vs.len() as i64)),
        AggFn::Sum => eval_sum(&vs),
        AggFn::Min => Ok(eval_extreme(t, true, &vs)),
        AggFn::Max => Ok(eval_extreme(t, false, &vs)),
    }
}

fn eval_member(t: &Symbols, x: Datum, rows: &Vec<Tuple>) -> (out: Datum)
    ensures
        out == member_from(t@, x, rows@, 0, false),
{
    let mut unknown: bool = false;
    let mut i: usize = 0;
    while i < rows.len()
        invariant
            i <= rows.len(),
            member_from(t@, x, rows@, 0, false) == member_from(t@, x, rows@, i as int, unknown),
        decreases rows.len() - i,
    {
        let c: Datum = datum::compare(t, Compare::Eq, x, rows[i].cell_at(0));
        if c == Datum::Bool(true) {
            return Datum::Bool(true);
        }
        unknown = unknown || c == Datum::Null;
        i += 1;
    }
    if unknown {
        Datum::Null
    } else {
        Datum::Bool(false)
    }
}

/// The rows of a list of values, behind those of `acc`.
pub fn eval_values_rows(cx: &Cx, env: &Env, rows: &ExprRows, acc: Vec<Tuple>) -> (out: Result<
    Vec<Tuple>,
    Fault,
>)
    ensures
        result_view_rowsr(out) == values_rows(cx@, *env, *rows, acc@),
    decreases rows, 0int, 0int,
{
    match rows {
        ExprRows::Nil => Ok(acc),
        ExprRows::Cons(row, rest) => {
            let t: Tuple = eval_exprs_value(cx, env, None, row)?;
            let mut more: Vec<Tuple> = acc;
            more.push(t);
            eval_values_rows(cx, env, rest, more)
        },
    }
}

fn eval_matches(
    cx: &Cx,
    env: &Env,
    fs: &Fields,
    on: &JoinOn,
    ps: &Pairs,
    l: &Tuple,
    rights: &Vec<Tuple>,
) -> (out: Result<Vec<Tuple>, Fault>)
    ensures
        result_view_rowsr(out) == matches_from(
            cx@,
            *env,
            *fs,
            *on,
            *ps,
            *l,
            rights@,
            0,
            Seq::empty(),
        ),
    decreases on, 1int, 0int,
{
    let ghost goal = matches_from(cx@, *env, *fs, *on, *ps, *l, rights@, 0, Seq::empty());
    let mut acc: Vec<Tuple> = Vec::new();
    let mut j: usize = 0;
    while j < rights.len()
        invariant
            j <= rights.len(),
            goal == matches_from(cx@, *env, *fs, *on, *ps, *l, rights@, 0, Seq::empty()),
            goal == matches_from(cx@, *env, *fs, *on, *ps, *l, rights@, j as int, acc@),
        decreases rights.len() - j,
    {
        let b: bool = eval_pair_holds(cx, env, fs, on, ps, l, &rights[j])?;
        if b {
            acc.push(ps.join(l, &rights[j]));
        }
        j += 1;
    }
    Ok(acc)
}

fn eval_left_rows(
    cx: &Cx,
    env: &Env,
    fs: &Fields,
    on: &JoinOn,
    ps: &Pairs,
    pad: bool,
    filler: &Tuple,
    lefts: &Vec<Tuple>,
    rights: &Vec<Tuple>,
) -> (out: Result<Vec<Tuple>, Fault>)
    ensures
        result_view_rowsr(out) == left_rows(
            cx@,
            *env,
            *fs,
            *on,
            *ps,
            pad,
            *filler,
            lefts@,
            rights@,
            0,
            Seq::empty(),
        ),
    decreases on, 2int, 0int,
{
    let ghost goal = left_rows(
        cx@,
        *env,
        *fs,
        *on,
        *ps,
        pad,
        *filler,
        lefts@,
        rights@,
        0,
        Seq::empty(),
    );
    let mut acc: Vec<Tuple> = Vec::new();
    let mut i: usize = 0;
    while i < lefts.len()
        invariant
            i <= lefts.len(),
            goal == left_rows(
                cx@,
                *env,
                *fs,
                *on,
                *ps,
                pad,
                *filler,
                lefts@,
                rights@,
                0,
                Seq::empty(),
            ),
            goal == left_rows(
                cx@,
                *env,
                *fs,
                *on,
                *ps,
                pad,
                *filler,
                lefts@,
                rights@,
                i as int,
                acc@,
            ),
        decreases lefts.len() - i,
    {
        let mut ms: Vec<Tuple> = eval_matches(cx, env, fs, on, ps, &lefts[i], rights)?;
        if pad && ms.len() == 0 {
            acc.push(ps.join(&lefts[i], filler));
        } else {
            acc.append(&mut ms);
        }
        i += 1;
    }
    Ok(acc)
}

fn eval_has_left(
    cx: &Cx,
    env: &Env,
    fs: &Fields,
    on: &JoinOn,
    ps: &Pairs,
    r: &Tuple,
    lefts: &Vec<Tuple>,
) -> (out: Result<bool, Fault>)
    ensures
        out == has_left(cx@, *env, *fs, *on, *ps, *r, lefts@, 0),
    decreases on, 1int, 0int,
{
    let ghost goal = has_left(cx@, *env, *fs, *on, *ps, *r, lefts@, 0);
    let mut i: usize = 0;
    while i < lefts.len()
        invariant
            i <= lefts.len(),
            goal == has_left(cx@, *env, *fs, *on, *ps, *r, lefts@, 0),
            goal == has_left(cx@, *env, *fs, *on, *ps, *r, lefts@, i as int),
        decreases lefts.len() - i,
    {
        let b: bool = eval_pair_holds(cx, env, fs, on, ps, &lefts[i], r)?;
        if b {
            return Ok(true);
        }
        i += 1;
    }
    Ok(false)
}

fn eval_lonely_rights(
    cx: &Cx,
    env: &Env,
    fs: &Fields,
    on: &JoinOn,
    ps: &Pairs,
    filler: &Tuple,
    lefts: &Vec<Tuple>,
    rights: &Vec<Tuple>,
    rows: Vec<Tuple>,
) -> (out: Result<Vec<Tuple>, Fault>)
    ensures
        result_view_rowsr(out) == lonely_rights(
            cx@,
            *env,
            *fs,
            *on,
            *ps,
            *filler,
            lefts@,
            rights@,
            0,
            rows@,
        ),
    decreases on, 2int, 0int,
{
    let ghost goal = lonely_rights(
        cx@,
        *env,
        *fs,
        *on,
        *ps,
        *filler,
        lefts@,
        rights@,
        0,
        rows@,
    );
    let mut acc: Vec<Tuple> = rows;
    let mut j: usize = 0;
    while j < rights.len()
        invariant
            j <= rights.len(),
            goal == lonely_rights(
                cx@,
                *env,
                *fs,
                *on,
                *ps,
                *filler,
                lefts@,
                rights@,
                0,
                rows@,
            ),
            goal == lonely_rights(
                cx@,
                *env,
                *fs,
                *on,
                *ps,
                *filler,
                lefts@,
                rights@,
                j as int,
                acc@,
            ),
        decreases rights.len() - j,
    {
        let b: bool = eval_has_left(cx, env, fs, on, ps, &rights[j], lefts)?;
        if !b {
            acc.push(ps.join(filler, &rights[j]));
        }
        j += 1;
    }
    Ok(acc)
}

/// The one row without cells that a query without a source starts from.
pub open spec fn no_source() -> RelModel {
    RelModel { fields: Fields::Nil, rows: seq![Tuple::Nil] }
}

fn eval_no_source() -> (out: Rel)
    ensures
        out@ == no_source(),
{
    let rows: Vec<Tuple> = vec![Tuple::Nil];
    assert(rows@ =~= seq![Tuple::Nil]);
    Rel { fields: Fields::Nil, rows }
}

/// The rows of a table under the name `q`.
pub open spec fn table_rel(t: TableModel, q: usize) -> RelModel {
    RelModel { fields: fields::table_fields(t.columns, q), rows: t.rows }
}

fn eval_table_rel(t: &Table, q: usize) -> (out: Rel)
    ensures
        out@ == table_rel(t@, q),
{
    Rel { fields: Fields::of_table(&t.columns, q), rows: relation::copy_rows(&t.rows) }
}

fn width(fs: &Fields) -> (out: Tuple)
    ensures
        out == datum::nulls(fields::fields_len(*fs)),
    decreases fs,
{
    match fs {
        Fields::Nil => Tuple::Nil,
        Fields::Cons(_, rest) => Tuple::Cons(Datum::Null, Box::new(width(rest))),
    }
}

fn eval_join_rows(
    cx: &Cx,
    env: &Env,
    kind: JoinKind,
    fs: &Fields,
    on: &JoinOn,
    ps: &Pairs,
    l: &Rel,
    r: &Rel,
) -> (out: Result<Vec<Tuple>, Fault>)
    ensures
        result_view_rowsr(out) == join_rows(cx@, *env, kind, *fs, *on, *ps, l@, r@),
    decreases on, 3int, 0int,
{
    let pad: bool = kind == JoinKind::Left || kind == JoinKind::Full;
    let rows: Vec<Tuple> = eval_left_rows(
        cx,
        env,
        fs,
        on,
        ps,
        pad,
        &width(&r.fields),
        &l.rows,
        &r.rows,
    )?;
    if kind == JoinKind::Right || kind == JoinKind::Full {
        eval_lonely_rights(cx, env, fs, on, ps, &width(&l.fields), &l.rows, &r.rows, rows)
    } else {
        Ok(rows)
    }
}

fn eval_key_rows(cx: &Cx, env: &Env, fs: &Fields, es: &Exprs, rows: &Vec<Tuple>) -> (out: Result<
    Vec<Keyed>,
    Fault,
>)
    ensures
        result_view_keyedr(out) == key_rows(cx@, *env, *fs, *es, rows@, 0, Seq::empty()),
    decreases es, 1int, 0int,
{
    let ghost goal = key_rows(cx@, *env, *fs, *es, rows@, 0, Seq::empty());
    let mut acc: Vec<Keyed> = Vec::new();
    let mut i: usize = 0;
    while i < rows.len()
        invariant
            i <= rows.len(),
            goal == key_rows(cx@, *env, *fs, *es, rows@, 0, Seq::empty()),
            goal == key_rows(cx@, *env, *fs, *es, rows@, i as int, acc@),
        decreases rows.len() - i,
    {
        let t: Tuple = eval_exprs_value(cx, &Env::Frame(fs, &rows[i], env), None, es)?;
        acc.push(Keyed { on: t, keys: Tuple::Nil, out: rows[i].copy() });
        i += 1;
    }
    Ok(acc)
}

fn eval_window_rows(cx: &Cx, env: &Env, fs: &Fields, over: &Over, rows: &Vec<Tuple>) -> (out: Result<
    Vec<Keyed>,
    Fault,
>)
    ensures
        result_view_keyedr(out) == window_rows(cx@, *env, *fs, *over, rows@, 0, Seq::empty()),
    decreases over, 1int, 0int,
{
    let ghost goal = window_rows(cx@, *env, *fs, *over, rows@, 0, Seq::empty());
    let mut acc: Vec<Keyed> = Vec::new();
    let mut i: usize = 0;
    while i < rows.len()
        invariant
            i <= rows.len(),
            goal == window_rows(cx@, *env, *fs, *over, rows@, 0, Seq::empty()),
            goal == window_rows(cx@, *env, *fs, *over, rows@, i as int, acc@),
        decreases rows.len() - i,
    {
        let k: Keyed = eval_window_row(cx, &Env::Frame(fs, &rows[i], env), over, &rows[i])?;
        acc.push(k);
        i += 1;
    }
    Ok(acc)
}

fn eval_group_members(ks: &Vec<Keyed>, on: &Tuple) -> (out: Vec<Tuple>)
    ensures
        out@ == group_members(ks@, *on),
{
    let mut r: Vec<Tuple> = Vec::new();
    let mut i: usize = 0;
    while i < ks.len()
        invariant
            i <= ks.len(),
            r@ == group_members(ks@.take(i as int), *on),
        decreases ks.len() - i,
    {
        proof {
            assert(ks@.take(i + 1).drop_last() =~= ks@.take(i as int));
        }
        if ks[i].on.same(on) {
            r.push(ks[i].out.copy());
        }
        i += 1;
    }
    proof {
        assert(ks@.take(i as int) =~= ks@);
    }
    r
}

fn eval_group_outputs(
    cx: &Cx,
    env: &Env,
    fs: &Fields,
    outs: &Fields,
    s: &Select,
    ks: &Vec<Keyed>,
    heads: &Vec<Keyed>,
) -> (out: Result<Vec<Keyed>, Fault>)
    ensures
        result_view_keyedr(out) == group_outputs(
            cx@,
            *env,
            *fs,
            *outs,
            *s,
            ks@,
            heads@,
            0,
            Seq::empty(),
        ),
    decreases s, 1int, 0int,
{
    let ghost goal = group_outputs(cx@, *env, *fs, *outs, *s, ks@, heads@, 0, Seq::empty());
    let mut acc: Vec<Keyed> = Vec::new();
    let mut i: usize = 0;
    while i < heads.len()
        invariant
            i <= heads.len(),
            goal == group_outputs(cx@, *env, *fs, *outs, *s, ks@, heads@, 0, Seq::empty()),
            goal == group_outputs(cx@, *env, *fs, *outs, *s, ks@, heads@, i as int, acc@),
        decreases heads.len() - i,
    {
        let rows: Vec<Tuple> = eval_group_members(ks, &heads[i].on);
        let head: Tuple = if rows.len() > 0 {
            rows[0].copy()
        } else {
            width(fs)
        };
        let frame: Env = Env::Frame(fs, &head, env);
        let d: Datum = eval_expr_value(cx, &frame, Some(&rows), &s.having)?;
        if d == Datum::Bool(true) {
            let k: Keyed = eval_block_output(cx, &frame, Some(&rows), outs, s)?;
            acc.push(k);
        }
        i += 1;
    }
    Ok(acc)
}

fn eval_row_outputs(
    cx: &Cx,
    env: &Env,
    fs: &Fields,
    group: Option<&Vec<Tuple>>,
    outs: &Fields,
    s: &Select,
    rows: &Vec<Tuple>,
) -> (out: Result<Vec<Keyed>, Fault>)
    ensures
        result_view_keyedr(out) == row_outputs(
            cx@,
            *env,
            *fs,
            group_view(group),
            *outs,
            *s,
            rows@,
            0,
            Seq::empty(),
        ),
    decreases s, 1int, 0int,
{
    let ghost g = group_view(group);
    let ghost goal = row_outputs(cx@, *env, *fs, g, *outs, *s, rows@, 0, Seq::empty());
    let mut acc: Vec<Keyed> = Vec::new();
    let mut i: usize = 0;
    while i < rows.len()
        invariant
            i <= rows.len(),
            g == group_view(group),
            goal == row_outputs(cx@, *env, *fs, g, *outs, *s, rows@, 0, Seq::empty()),
            goal == row_outputs(cx@, *env, *fs, g, *outs, *s, rows@, i as int, acc@),
        decreases rows.len() - i,
    {
        let k: Keyed = eval_block_output(cx, &Env::Frame(fs, &rows[i], env), group, outs, s)?;
        acc.push(k);
        i += 1;
    }
    Ok(acc)
}

fn eval_group_heads(s: &Select, ks: &Vec<Keyed>) -> (out: Vec<Keyed>)
    ensures
        out@ == group_heads(*s, ks@),
{
    if matches!(s.group, Exprs::Nil) {
        let heads: Vec<Keyed> = vec![
            Keyed { on: Tuple::Nil, keys: Tuple::Nil, out: Tuple::Nil },
        ];
        assert(heads@ =~= group_heads(*s, ks@));
        heads
    } else {
        relation::first_per_key(ks)
    }
}

fn eval_block_rows(cx: &Cx, env: &Env, s: &Select) -> (out: Result<Vec<Keyed>, Fault>)
    ensures
        result_view_keyedr(out) == block_rows(cx@, *env, *s),
    decreases s, 2int, 0int,
{
    let rel: Rel = eval_source_rel(cx, env, &s.source)?;
    let rows: Vec<Tuple> = if analyze::infer_needs_rows(s) {
        eval_kept_rows(cx, env, &rel.fields, &s.filter, &rel.rows)?
    } else {
        Vec::new()
    };
    let outs: Fields = analyze::infer_items_fields(
        cx,
        &Env::Frame(&rel.fields, &Tuple::Nil, env),
        &rel.fields,
        &s.items,
    )?;
    if analyze::infer_is_grouped(s) {
        let ks: Vec<Keyed> = eval_key_rows(cx, env, &rel.fields, &s.group, &rows)?;
        let heads: Vec<Keyed> = eval_group_heads(s, &ks);
        eval_group_outputs(cx, env, &rel.fields, &outs, s, &ks, &heads)
    } else if analyze::infer_windowed(s) {
        let all: Vec<Tuple> = window::number(&rows);
        eval_row_outputs(cx, env, &rel.fields, Some(&all), &outs, s, &all)
    } else {
        eval_row_outputs(cx, env, &rel.fields, None, &outs, s, &rows)
    }
}

fn eval_series(a: Datum, b: Datum) -> (out: Vec<Tuple>)
    ensures
        out@ == series(a, b),
{
    let narrow: bool = match (a, b) {
        (Datum::Int(_), Datum::Int(_)) => true,
        _ => false,
    };
    let mut rows: Vec<Tuple> = Vec::new();
    let (lo, hi): (i64, i64) = match (a, b) {
        (Datum::Int(x), Datum::Int(y)) => (x as i64, y as i64),
        (Datum::Int(x), Datum::Big(y)) => (x as i64, y),
        (Datum::Big(x), Datum::Int(y)) => (x, y as i64),
        (Datum::Big(x), Datum::Big(y)) => (x, y),
        _ => {
            return rows;
        },
    };
    let mut n: i128 = lo as i128;
    while n <= hi as i128
        invariant
            narrow == (a is Int && b is Int),
            datum::is_number(a),
            datum::is_number(b),
            lo == datum::as_number(a),
            hi == datum::as_number(b),
            lo <= n,
            lo <= hi ==> n <= hi + 1,
            lo > hi ==> n == lo,
            rows@.len() == n - lo,
            forall|i: int|
                0 <= i < rows@.len() ==> #[trigger] rows@[i] == Tuple::Cons(
                    series_cell(narrow, lo + i),
                    Box::new(Tuple::Nil),
                ),
        decreases hi + 1 - n,
    {
        let d: Datum = if narrow {
            Datum::Int(n as i32)
        } else {
            Datum::Big(n as i64)
        };
        rows.push(Tuple::Cons(d, Box::new(Tuple::Nil)));
        n += 1;
    }
    assert(rows@ =~= series(a, b));
    rows
}

fn arrange(t: &Symbols, s: &Select, ks: &Vec<Keyed>) -> (out: Vec<Tuple>)
    ensures
        out@ == arranged(t@, *s, ks@),
{
    let ordered: Vec<Keyed> = relation::sort(t, &s.orders, ks);
    if matches!(s.distinct, Distinct::No) {
        relation::outputs(&ordered)
    } else {
        relation::outputs(&relation::first_per_key(&ordered))
    }
}

fn eval_keyed_outputs(fs: &Fields, os: &Orders, rows: &Vec<Tuple>) -> (out: Vec<Keyed>)
    ensures
        out@ == keyed_outputs(*fs, *os, rows@),
{
    let mut r: Vec<Keyed> = Vec::new();
    let mut i: usize = 0;
    while i < rows.len()
        invariant
            i <= rows.len(),
            r@ =~= keyed_outputs(*fs, *os, rows@).take(i as int),
        decreases rows.len() - i,
    {
        r.push(
            Keyed {
                on: Tuple::Nil,
                keys: eval_output_keys(fs, os, &rows[i]),
                out: rows[i].copy(),
            },
        );
        i += 1;
    }
    r
}

/// The rows that a query gives back.
pub fn eval_query_rows(cx: &Cx, env: &Env, q: &Query) -> (out: Result<Vec<Tuple>, Fault>)
    ensures
        result_view_rowsr(out) == query_rows(cx@, *env, *q),
    decreases q, 0int, 0int,
{
    match q {
        Query::Select(s) => {
            let ks: Vec<Keyed> = eval_block_rows(cx, env, s)?;
            Ok(arrange(cx.symbols, s, &ks))
        },
        Query::Values(rows) => eval_values_rows(cx, env, rows, Vec::new()),
        Query::Series(a, b) => {
            let x: Datum = eval_expr_value(cx, env, None, a)?;
            let y: Datum = eval_expr_value(cx, env, None, b)?;
            Ok(eval_series(x, y))
        },
        Query::Combined(kind, all, a, b) => {
            let x: Vec<Tuple> = eval_query_rows(cx, env, a)?;
            let y: Vec<Tuple> = eval_query_rows(cx, env, b)?;
            Ok(relation::combine(*kind, *all, x, y))
        },
        Query::Sorted(inner, os, limit, offset) => {
            let rows: Vec<Tuple> = eval_query_rows(cx, env, inner)?;
            let fs: Fields = analyze::infer_query_fields(cx, env, inner)?;
            let ks: Vec<Keyed> = eval_keyed_outputs(&fs, os, &rows);
            let sorted: Vec<Tuple> = relation::outputs(&relation::sort(cx.symbols, os, &ks));
            Ok(relation::limit_rows(&sorted, *limit, *offset))
        },
        Query::With(n, cols, def, body) => {
            let rows: Vec<Tuple> = eval_query_rows(cx, env, def)?;
            let fs: Fields = analyze::infer_query_fields(cx, env, def)?;
            let gs: Fields = fs.rename(cols);
            let named: Named = Named::Cons(*n, &gs, &rows, cx.named);
            let inner: Cx = Cx {
                db: cx.db,
                symbols: cx.symbols,
                path: cx.path,
                user: cx.user,
                params: cx.params,
                named: &named,
            };
            eval_query_rows(&inner, env, body)
        },
    }
}

fn like_match(s: &Vec<char>, i: usize, p: &Vec<char>, j: usize) -> (out: bool)
    requires
        i <= s.len(),
        j <= p.len(),
    ensures
        out == like_from(s@, i as int, p@, j as int),
    decreases (s.len() - i) + (p.len() - j),
{
    if j == p.len() {
        i == s.len()
    } else if p[j] == '%' {
        like_match(s, i, p, j + 1) || (i < s.len() && like_match(s, i + 1, p, j))
    } else if i == s.len() {
        false
    } else if p[j] == '\\' && p.len() - j > 1 {
        s[i] == p[j + 1] && like_match(s, i + 1, p, j + 2)
    } else if p[j] == '_' {
        like_match(s, i + 1, p, j + 1)
    } else {
        s[i] == p[j] && like_match(s, i + 1, p, j + 1)
    }
}

fn eval_like_value(t: &Symbols, a: Datum, b: Datum) -> (out: Datum)
    ensures
        out == like_value(t@, a, b),
{
    match (a, b) {
        (Datum::Text(x), Datum::Text(y)) => {
            let s: Vec<char> = text::chars_of(t.text(x).as_str());
            let p: Vec<char> = text::chars_of(t.text(y).as_str());
            Datum::Bool(like_match(&s, 0, &p, 0))
        },
        _ => Datum::Null,
    }
}

pub open spec fn rel_opt_view(r: Option<Rel>) -> Option<RelModel> {
    match r {
        Some(x) => Some(x@),
        None => None,
    }
}

fn eval_named_rel(cx: &Cx, n: Name, qualifier: usize) -> (out: Option<Rel>)
    ensures
        rel_opt_view(out) == named_rel(cx@, n, qualifier),
{
    match analyze::find_query_named(cx, n) {
        None => None,
        Some(fs) => match cx.named.rows(n.name) {
            None => None,
            Some(rows) => Some(Rel { fields: fs.under(qualifier), rows }),
        },
    }
}

} // verus!
