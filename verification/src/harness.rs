//! Shorthands for running queries and looking at what they return.

use vstd::prelude::*;
use vstd::string::StringExecFns;
use crate::engine;
use crate::engine::Engine;
use crate::engine::SessionHandle;
use crate::fault::DbError;
use crate::fault::ErrorModel;
use crate::text;
use crate::value;
use crate::value::ResultColumn;
use crate::value::ResultModel;
use crate::value::Row;
use crate::value::StatementResult;
use crate::value::Value;
use crate::value::ValueModel;

verus! {

/// Why a query does not return what was asked for: it failed, it was no query, it
/// did not return one row, or the value is no integer.
#[derive(Debug)]
pub enum QueryError {
    Failed(DbError),
    NotAQuery,
    NotOneRow,
    NotAnInteger,
}

pub enum QueryErrorModel {
    Failed(ErrorModel),
    NotAQuery,
    NotOneRow,
    NotAnInteger,
}

impl View for QueryError {
    type V = QueryErrorModel;

    open spec fn view(&self) -> QueryErrorModel {
        match *self {
            QueryError::Failed(e) => QueryErrorModel::Failed(e@),
            QueryError::NotAQuery => QueryErrorModel::NotAQuery,
            QueryError::NotOneRow => QueryErrorModel::NotOneRow,
            QueryError::NotAnInteger => QueryErrorModel::NotAnInteger,
        }
    }
}

/// The rows of the last query among the first `n` of some results.
pub open spec fn last_rows(rs: Seq<ResultModel>, n: int) -> Option<Seq<Seq<ValueModel>>>
    decreases n,
{
    if n <= 0 || n > rs.len() {
        None
    } else {
        match rs[n - 1] {
            ResultModel::Query { rows, .. } => Some(rows),
            _ => last_rows(rs, n - 1),
        }
    }
}

/// The rows that statements return: those of the last query among them.
pub open spec fn returned_rows(r: Result<Seq<ResultModel>, ErrorModel>) -> Result<
    Seq<Seq<ValueModel>>,
    QueryErrorModel,
> {
    match r {
        Err(e) => Err(QueryErrorModel::Failed(e)),
        Ok(rs) => match last_rows(rs, rs.len() as int) {
            Some(rows) => Ok(rows),
            None => Err(QueryErrorModel::NotAQuery),
        },
    }
}

pub open spec fn rows_result(r: Result<Vec<Row>, QueryError>) -> Result<
    Seq<Seq<ValueModel>>,
    QueryErrorModel,
> {
    match r {
        Ok(v) => Ok(value::rows_view(v@)),
        Err(e) => Err(e@),
    }
}

/// The rows of the last query among some statements.
pub fn query_rows(engine: &mut Engine, session: &SessionHandle, sql: &str) -> (r: Result<
    Vec<Row>,
    QueryError,
>)
    requires
        old(engine).wf(),
    ensures
        final(engine).wf(),
        final(engine)@ == engine::executed(old(engine)@, session.id, sql@).0,
        rows_result(r) == returned_rows(engine::executed(old(engine)@, session.id, sql@).1),
{
    match engine.execute_sql(session, sql) {
        Err(e) => Err(QueryError::Failed(e)),
        Ok(results) => take_rows(results),
    }
}

fn take_rows(results: Vec<StatementResult>) -> (r: Result<Vec<Row>, QueryError>)
    ensures
        rows_result(r) == returned_rows(Ok(value::results_view(results@))),
{
    let ghost all = value::results_view(results@);
    let mut rest: Vec<StatementResult> = results;
    while rest.len() > 0
        invariant
            all == value::results_view(results@),
            rest@.len() <= all.len(),
            value::results_view(rest@) =~= all.take(rest@.len() as int),
            last_rows(all, all.len() as int) == last_rows(all, rest@.len() as int),
        decreases rest.len(),
    {
        let ghost before = rest@;
        match rest.pop() {
            None => {},
            Some(last) => {
                assert(value::results_view(before)[before.len() - 1] == last@);
                match last {
                    StatementResult::Query { rows, .. } => {
                        return Ok(rows);
                    },
                    _ => {},
                }
            },
        }
    }
    Err(QueryError::NotAQuery)
}

/// The integer in the first column of the only row.
pub open spec fn single_int(r: Result<Seq<Seq<ValueModel>>, QueryErrorModel>) -> Result<
    i64,
    QueryErrorModel,
> {
    match r {
        Err(e) => Err(e),
        Ok(rows) => if rows.len() != 1 {
            Err(QueryErrorModel::NotOneRow)
        } else if rows[0].len() == 0 {
            Err(QueryErrorModel::NotAnInteger)
        } else {
            match rows[0][0] {
                ValueModel::Int(n) => Ok(n as i64),
                ValueModel::BigInt(n) => Ok(n),
                _ => Err(QueryErrorModel::NotAnInteger),
            }
        },
    }
}

/// The integer in the first column of the only row of a query.
pub fn query_single_int(engine: &mut Engine, session: &SessionHandle, sql: &str) -> (r: Result<
    i64,
    QueryError,
>)
    requires
        old(engine).wf(),
    ensures
        final(engine).wf(),
        final(engine)@ == engine::executed(old(engine)@, session.id, sql@).0,
        (match r {
            Ok(n) => Ok(n),
            Err(e) => Err(e@),
        }) == single_int(returned_rows(engine::executed(old(engine)@, session.id, sql@).1)),
{
    let rows: Vec<Row> = match query_rows(engine, session, sql) {
        Err(e) => {
            return Err(e);
        },
        Ok(rows) => rows,
    };
    if rows.len() != 1 {
        return Err(QueryError::NotOneRow);
    }
    assert(value::rows_view(rows@)[0] == rows@[0]@);
    if rows[0].values.len() == 0 {
        return Err(QueryError::NotAnInteger);
    }
    assert(rows@[0]@[0] == rows@[0].values@[0]@);
    match rows[0].values[0] {
        Value::Int(n) => Ok(n as i64),
        Value::BigInt(n) => Ok(n),
        _ => Err(QueryError::NotAnInteger),
    }
}

/// The texts of the values of a row.
pub open spec fn row_texts(row: Seq<ValueModel>) -> Seq<Seq<char>> {
    row.map_values(|v: ValueModel| value::value_text(v))
}

/// The texts of the values of rows.
pub open spec fn rows_texts(rows: Seq<Seq<ValueModel>>) -> Seq<Seq<Seq<char>>> {
    rows.map_values(|r: Seq<ValueModel>| row_texts(r))
}

/// The texts of the values of all rows of the first result.
pub fn query_rows_as_text(results: Vec<StatementResult>) -> (r: Vec<Vec<String>>)
    requires
        results@.len() > 0,
        results@[0] is Query,
    ensures
        r@.map_values(|v: Vec<String>| text::texts(v@)) == rows_texts(
            value::rows_view(results@[0]->rows@),
        ),
{
    let mut out: Vec<Vec<String>> = Vec::new();
    match &results[0] {
        StatementResult::Query { rows, .. } => {
            let mut i: usize = 0;
            while i < rows.len()
                invariant
                    i <= rows.len(),
                    out@.len() == i,
                    forall|j: int| 0 <= j < i ==> text::texts((#[trigger] out@[j])@) == row_texts(
                        rows@[j]@,
                    ),
                decreases rows.len() - i,
            {
                out.push(row_as_text(&rows[i]));
                i += 1;
            }
            assert(out@.map_values(|v: Vec<String>| text::texts(v@)) =~= rows_texts(
                value::rows_view(rows@),
            ));
        },
        _ => {},
    }
    out
}

fn row_as_text(row: &Row) -> (r: Vec<String>)
    ensures
        text::texts(r@) == row_texts(row@),
{
    let mut out: Vec<String> = Vec::new();
    let mut i: usize = 0;
    while i < row.values.len()
        invariant
            i <= row.values.len(),
            out@.len() == i,
            forall|j: int| 0 <= j < i ==> (#[trigger] out@[j])@ == value::value_text(
                row.values@[j]@,
            ),
        decreases row.values.len() - i,
    {
        out.push(row.values[i].to_string());
        i += 1;
    }
    assert(text::texts(out@) =~= row_texts(row@));
    out
}

/// The names of columns.
pub fn column_names(columns: &[ResultColumn]) -> (r: Vec<&str>)
    ensures
        r@.len() == columns@.len(),
        forall|i: int| 0 <= i < r@.len() ==> (#[trigger] r@[i])@ == columns@[i].name@,
{
    let mut names: Vec<&str> = Vec::new();
    let mut i: usize = 0;
    while i < columns.len()
        invariant
            i <= columns@.len(),
            names@.len() == i,
            forall|j: int| 0 <= j < i ==> (#[trigger] names@[j])@ == columns@[j].name@,
        decreases columns@.len() - i,
    {
        names.push(columns[i].name.as_str());
        i += 1;
    }
    names
}

/// The text in a column of a row.
pub fn text_col(row: &Row, idx: usize) -> (r: String)
    requires
        idx < row.values@.len(),
        row.values@[idx as int] is Text,
    ensures
        row.values@[idx as int]@ == ValueModel::Text(r@),
{
    match &row.values[idx] {
        Value::Text(t) => text::owned(t.as_str()),
        _ => String::new(),
    }
}

/// The integer in a column of a row.
pub fn int_col(row: &Row, idx: usize) -> (r: i32)
    requires
        idx < row.values@.len(),
        row.values@[idx as int] is Int,
    ensures
        row.values@[idx as int] == Value::Int(r),
{
    match &row.values[idx] {
        Value::Int(n) => *n,
        _ => 0,
    }
}

/// The integer in a column of a row, of either width.
pub fn bigint_col(row: &Row, idx: usize) -> (r: i64)
    requires
        idx < row.values@.len(),
        row.values@[idx as int] is BigInt || row.values@[idx as int] is Int,
    ensures
        row.values@[idx as int] == Value::BigInt(r) || (row.values@[idx as int] matches Value::Int(
            n,
        ) && n == r),
{
    match &row.values[idx] {
        Value::BigInt(n) => *n,
        Value::Int(n) => *n as i64,
        _ => 0,
    }
}

/// A text in quotation marks, with the characters escaped that cannot stand there
/// as they are.
pub uninterp spec fn quoted_text(s: Seq<char>) -> Seq<char>;

/// Formats a text with `{:?}`. That the result depends on the text alone is taken
/// from the documentation of `Debug` for `str`; nothing else is claimed of it.
#[verifier::external_body]
fn debug_text(s: &str) -> (r: String)
    ensures
        r@ == quoted_text(s@),
{
    format!("{:?}", s)
}

/// How a value is written out with its type.
pub open spec fn value_debug(v: ValueModel) -> Seq<char> {
    match v {
        ValueModel::Null => "Null"@,
        ValueModel::Int(n) => "Int("@ + text::signed_decimal(n as int) + ")"@,
        ValueModel::BigInt(n) => "BigInt("@ + text::signed_decimal(n as int) + ")"@,
        ValueModel::Boolean(b) => "Boolean("@ + (if b {
            "true"@
        } else {
            "false"@
        }) + ")"@,
        ValueModel::Text(s) => "Text("@ + quoted_text(s) + ")"@,
    }
}

/// How values are written out, with commas between them.
pub open spec fn list_debug(vs: Seq<ValueModel>) -> Seq<char>
    decreases vs.len(),
{
    if vs.len() == 0 {
        Seq::empty()
    } else if vs.len() == 1 {
        value_debug(vs[0])
    } else {
        list_debug(vs.drop_last()) + ", "@ + value_debug(vs.last())
    }
}

/// How a row is written out.
pub open spec fn row_debug(row: Seq<ValueModel>) -> Seq<char> {
    "["@ + list_debug(row) + "]"@
}

fn push_value_debug(s: &mut String, v: &Value)
    ensures
        final(s)@ == old(s)@ + value_debug(v@),
{
    let ghost before = s@;
    match v {
        Value::Null => {
            s.append("Null");
        },
        Value::Int(n) => {
            s.append("Int(");
            text::push_signed(s, *n as i64);
            s.append(")");
        },
        Value::BigInt(n) => {
            s.append("BigInt(");
            text::push_signed(s, *n);
            s.append(")");
        },
        Value::Boolean(b) => {
            s.append("Boolean(");
            if *b {
                s.append("true");
            } else {
                s.append("false");
            }
            s.append(")");
        },
        Value::Text(t) => {
            s.append("Text(");
            s.append(debug_text(t.as_str()).as_str());
            s.append(")");
        },
    }
    assert(s@ =~= before + value_debug(v@));
}

fn debug_row(row: &Row) -> (s: String)
    ensures
        s@ == row_debug(row@),
{
    let mut s: String = text::owned("[");
    let ghost vs = row@;
    let mut i: usize = 0;
    while i < row.values.len()
        invariant
            i <= row.values.len(),
            vs == row@,
            s@ =~= "["@ + list_debug(vs.take(i as int)),
        decreases row.values.len() - i,
    {
        if i > 0 {
            s.append(", ");
        }
        push_value_debug(&mut s, &row.values[i]);
        i += 1;
        assert(vs.take(i as int).drop_last() =~= vs.take(i - 1));
        assert(vs.take(i as int).last() == row.values@[i - 1]@);
    }
    assert(vs.take(i as int) =~= vs);
    s.append("]");
    assert(s@ =~= row_debug(row@));
    s
}

/// Whether `a` comes before `b` or is equal to it: by the first character from
/// place `i` on in which they differ.
pub open spec fn text_le(a: Seq<char>, b: Seq<char>, i: int) -> bool
    decreases a.len() - i,
{
    if i < 0 || i >= a.len() {
        true
    } else if i >= b.len() {
        false
    } else if a[i] != b[i] {
        a[i] < b[i]
    } else {
        text_le(a, b, i + 1)
    }
}

fn text_before(a: &Vec<char>, b: &Vec<char>) -> (r: bool)
    ensures
        r == text_le(a@, b@, 0),
{
    let mut i: usize = 0;
    while i < a.len() && i < b.len()
        invariant
            i <= a.len(),
            i <= b.len(),
            text_le(a@, b@, 0) == text_le(a@, b@, i as int),
        decreases a.len() - i,
    {
        if a[i] != b[i] {
            return a[i] < b[i];
        }
        i += 1;
    }
    i >= a.len()
}

/// Whether a row comes before another or is written out like it.
pub open spec fn row_le(a: Seq<ValueModel>, b: Seq<ValueModel>) -> bool {
    text_le(row_debug(a), row_debug(b), 0)
}

/// The place behind the rows before place `k` that come before `x` or are written
/// out like it; the rows are in order.
pub open spec fn insert_place(rows: Seq<Seq<ValueModel>>, x: Seq<ValueModel>, k: int) -> int
    decreases k,
{
    if k <= 0 || k > rows.len() {
        0
    } else if row_le(rows[k - 1], x) {
        k
    } else {
        insert_place(rows, x, k - 1)
    }
}

/// Rows in order of how they are written out; rows written out alike stay in the
/// order in which they were.
pub open spec fn sorted_rows(rows: Seq<Seq<ValueModel>>) -> Seq<Seq<ValueModel>>
    decreases rows.len(),
{
    if rows.len() == 0 {
        rows
    } else {
        let front = sorted_rows(rows.drop_last());
        front.insert(insert_place(front, rows.last(), front.len() as int), rows.last())
    }
}

proof fn lemma_insert_place(rows: Seq<Seq<ValueModel>>, x: Seq<ValueModel>, k: int)
    requires
        0 <= k <= rows.len(),
    ensures
        0 <= insert_place(rows, x, k) <= k,
        forall|j: int| insert_place(rows, x, k) <= j < k ==> !row_le(#[trigger] rows[j], x),
        insert_place(rows, x, k) > 0 ==> row_le(rows[insert_place(rows, x, k) - 1], x),
    decreases k,
{
    if k > 0 && !row_le(rows[k - 1], x) {
        lemma_insert_place(rows, x, k - 1);
    }
}

fn find_insert_place(rows: &Vec<Row>, x: &Row) -> (r: usize)
    ensures
        r <= rows.len(),
        r == insert_place(value::rows_view(rows@), x@, rows@.len() as int),
{
    let key: Vec<char> = text::chars_of(debug_row(x).as_str());
    let mut k: usize = rows.len();
    while k > 0
        invariant
            k <= rows.len(),
            key@ == row_debug(x@),
            insert_place(value::rows_view(rows@), x@, rows@.len() as int) == insert_place(
                value::rows_view(rows@),
                x@,
                k as int,
            ),
        decreases k,
    {
        assert(value::rows_view(rows@)[k - 1] == rows@[k - 1]@);
        let other: Vec<char> = text::chars_of(debug_row(&rows[k - 1]).as_str());
        if text_before(&other, &key) {
            return k;
        }
        k -= 1;
    }
    0
}

/// Puts rows in an order that does not depend on how a query found them: by how
/// they are written out.
pub fn sort_rows_for_comparison(rows: &mut Vec<Row>)
    ensures
        value::rows_view(final(rows)@) == sorted_rows(value::rows_view(old(rows)@)),
{
    let ghost all = value::rows_view(rows@);
    let mut out: Vec<Row> = Vec::new();
    assert(value::rows_view(out@) =~= sorted_rows(all.take(0)));
    while rows.len() > 0
        invariant
            all == value::rows_view(old(rows)@),
            rows@.len() + out@.len() == all.len(),
            value::rows_view(rows@) =~= all.skip(out@.len() as int),
            value::rows_view(out@) == sorted_rows(all.take(out@.len() as int)),
        decreases rows.len(),
    {
        let ghost before = rows@;
        let ghost done = out@;
        let ghost n = out@.len() as int;
        let x: Row = rows.remove(0);
        assert(value::rows_view(before)[0] == x@);
        assert(all[n] == x@);
        let place: usize = find_insert_place(&out, &x);
        out.insert(place, x);
        proof {
            assert(all.take(n + 1).drop_last() =~= all.take(n));
            assert(value::rows_view(out@) =~= value::rows_view(done).insert(place as int, x@));
            assert(value::rows_view(rows@) =~= value::rows_view(before).skip(1));
        }
    }
    assert(all.take(all.len() as int) =~= all);
    while out.len() > 0
        invariant
            value::rows_view(rows@) + value::rows_view(out@) == sorted_rows(all),
        decreases out.len(),
    {
        let ghost before = rows@;
        let ghost rest = out@;
        let x: Row = out.remove(0);
        rows.push(x);
        assert(value::rows_view(rows@) + value::rows_view(out@) =~= value::rows_view(before)
            + value::rows_view(rest));
    }
    assert(value::rows_view(rows@) =~= sorted_rows(all));
}

proof fn lemma_text_le_total(a: Seq<char>, b: Seq<char>, i: int)
    requires
        0 <= i,
    ensures
        text_le(a, b, i) || text_le(b, a, i),
    decreases a.len() - i,
{
    if i < a.len() && i < b.len() && a[i] == b[i] {
        lemma_text_le_total(a, b, i + 1);
    }
}

proof fn lemma_text_le_trans(a: Seq<char>, b: Seq<char>, c: Seq<char>, i: int)
    requires
        0 <= i,
        text_le(a, b, i),
        text_le(b, c, i),
    ensures
        text_le(a, c, i),
    decreases a.len() - i,
{
    if i < a.len() && i < b.len() && i < c.len() && a[i] == b[i] && b[i] == c[i] {
        lemma_text_le_trans(a, b, c, i + 1);
    }
}

/// Whether rows are in order.
pub open spec fn in_order(rows: Seq<Seq<ValueModel>>) -> bool {
    forall|i: int, j: int| 0 <= i <= j < rows.len() ==> row_le(
        #[trigger] rows[i],
        #[trigger] rows[j],
    )
}

/// The rows that are written out as `d`, in the order in which they are there.
pub open spec fn written_as(rows: Seq<Seq<ValueModel>>, d: Seq<char>) -> Seq<Seq<ValueModel>> {
    rows.filter(|r: Seq<ValueModel>| row_debug(r) == d)
}

/// A row that is put in front of rows written out otherwise keeps the order of rows
/// written out alike.
proof fn lemma_insert_keeps_alike(
    front: Seq<Seq<ValueModel>>,
    x: Seq<ValueModel>,
    k: int,
    d: Seq<char>,
)
    requires
        0 <= k <= front.len(),
        forall|j: int| k <= j < front.len() ==> row_debug(#[trigger] front[j]) != row_debug(x),
    ensures
        written_as(front.insert(k, x), d) == written_as(front.push(x), d),
{
    let alike = |r: Seq<ValueModel>| row_debug(r) == d;
    let low = front.take(k);
    let high = front.skip(k);
    assert(front =~= low + high);
    assert(front.insert(k, x) =~= low.push(x) + high);
    assert(front.push(x) =~= front + seq![x]);
    assert(low.push(x) =~= low + seq![x]);
    Seq::filter_distributes_over_add(low, high, alike);
    Seq::filter_distributes_over_add(low.push(x), high, alike);
    Seq::filter_distributes_over_add(low, seq![x], alike);
    Seq::filter_distributes_over_add(front, seq![x], alike);
    reveal(Seq::filter);
    assert(seq![x].drop_last() =~= Seq::empty());
    assert(Seq::<Seq<ValueModel>>::empty().filter(alike) =~= Seq::empty());
    if row_debug(x) == d {
        assert forall|j: int| 0 <= j < high.len() implies !alike(#[trigger] high[j]) by {
            assert(high[j] == front[k + j]);
        }
        high.lemma_all_neg_filter_empty(alike);
        assert(high.filter(alike) =~= Seq::empty());
    } else {
        assert(seq![x].filter(alike) =~= Seq::empty());
    }
    assert(front.insert(k, x).filter(alike) =~= front.push(x).filter(alike));
}

/// Sorted rows are in order, they are the rows that were there, each as often, and rows
/// written out alike stay in the order in which they were.
pub proof fn law_sorted_rows(rows: Seq<Seq<ValueModel>>)
    ensures
        in_order(sorted_rows(rows)),
        sorted_rows(rows).to_multiset() == rows.to_multiset(),
        sorted_rows(rows).len() == rows.len(),
        forall|d: Seq<char>| #[trigger] written_as(sorted_rows(rows), d) == written_as(rows, d),
    decreases rows.len(),
{
    broadcast use vstd::seq_lib::group_to_multiset_ensures;

    if rows.len() > 0 {
        let front = sorted_rows(rows.drop_last());
        let x = rows.last();
        law_sorted_rows(rows.drop_last());
        lemma_insert_place(front, x, front.len() as int);
        let k = insert_place(front, x, front.len() as int);
        let out = front.insert(k, x);
        assert forall|i: int, j: int| 0 <= i <= j < out.len() implies row_le(
            #[trigger] out[i],
            #[trigger] out[j],
        ) by {
            lemma_text_le_total(row_debug(x), row_debug(x), 0);
            if i < k {
                assert(out[i] == front[i]);
                assert(row_le(front[i], front[k - 1]));
                if j == k {
                    lemma_text_le_trans(
                        row_debug(front[i]),
                        row_debug(front[k - 1]),
                        row_debug(x),
                        0,
                    );
                } else if j < k {
                    assert(out[j] == front[j]);
                } else {
                    assert(out[j] == front[j - 1]);
                }
            } else if i == k {
                if j > k {
                    assert(out[j] == front[j - 1]);
                    lemma_text_le_total(row_debug(x), row_debug(front[j - 1]), 0);
                }
            } else {
                assert(out[i] == front[i - 1]);
                assert(out[j] == front[j - 1]);
            }
        }
        assert(rows =~= rows.drop_last().push(x));
        assert(out.to_multiset() =~= rows.to_multiset());
        assert forall|j: int| k <= j < front.len() implies row_debug(#[trigger] front[j])
            != row_debug(x) by {
            lemma_text_le_total(row_debug(x), row_debug(x), 0);
            assert(!row_le(front[j], x));
        }
        assert forall|d: Seq<char>| #[trigger] written_as(out, d) == written_as(rows, d) by {
            let alike = |r: Seq<ValueModel>| row_debug(r) == d;
            lemma_insert_keeps_alike(front, x, k, d);
            assert(written_as(front, d) == written_as(rows.drop_last(), d));
            reveal(Seq::filter);
            assert(front.push(x).drop_last() =~= front);
            assert(front.push(x).filter(alike) =~= rows.filter(alike));
        }
    }
}

} // verus!
