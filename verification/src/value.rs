//! Results as a client sees them.

use vstd::prelude::*;
use vstd::string::StringExecFns;
use crate::datum::DataType;
use crate::datum::Datum;
use crate::datum::Tuple;
use crate::fault;
use crate::fault::Tag;
use crate::fields::Field;
use crate::fields::Fields;
use crate::notice;
use crate::session;
use crate::session::Answer;
use crate::session::AnswerModel;
use crate::session::Reply;
use crate::session::ReplyModel;
use crate::symbols;
use crate::symbols::Symbols;
use crate::text;

verus! {

/// A value of a row.
#[derive(Clone, PartialEq, Eq, Debug)]
pub enum Value {
    Null,
    Int(i32),
    BigInt(i64),
    Boolean(bool),
    Text(String),
}

pub enum ValueModel {
    Null,
    Int(i32),
    BigInt(i64),
    Boolean(bool),
    Text(Seq<char>),
}

impl View for Value {
    type V = ValueModel;

    open spec fn view(&self) -> ValueModel {
        match *self {
            Value::Null => ValueModel::Null,
            Value::Int(n) => ValueModel::Int(n),
            Value::BigInt(n) => ValueModel::BigInt(n),
            Value::Boolean(b) => ValueModel::Boolean(b),
            Value::Text(s) => ValueModel::Text(s@),
        }
    }
}

/// A row of a result.
#[derive(Clone, PartialEq, Eq, Debug)]
pub struct Row {
    pub values: Vec<Value>,
}

pub open spec fn values_view(v: Seq<Value>) -> Seq<ValueModel> {
    v.map_values(|x: Value| x@)
}

impl View for Row {
    type V = Seq<ValueModel>;

    open spec fn view(&self) -> Seq<ValueModel> {
        values_view(self.values@)
    }
}

impl Row {
    pub fn new(values: Vec<Value>) -> (r: Row)
        ensures
            r@ == values_view(values@),
    {
        Row { values }
    }
}

pub open spec fn rows_view(v: Seq<Row>) -> Seq<Seq<ValueModel>> {
    v.map_values(|x: Row| x@)
}

/// A column of a result. Texts are not limited in length, so the limit is always
/// absent.
#[derive(Clone, PartialEq, Eq, Debug)]
pub struct ResultColumn {
    pub name: String,
    pub data_type: DataType,
    pub text_type_modifier: Option<u32>,
    pub nullable: bool,
}

pub struct ColumnModel {
    pub name: Seq<char>,
    pub data_type: DataType,
    pub text_type_modifier: Option<u32>,
    pub nullable: bool,
}

impl View for ResultColumn {
    type V = ColumnModel;

    open spec fn view(&self) -> ColumnModel {
        ColumnModel {
            name: self.name@,
            data_type: self.data_type,
            text_type_modifier: self.text_type_modifier,
            nullable: self.nullable,
        }
    }
}

pub open spec fn columns_view(v: Seq<ResultColumn>) -> Seq<ColumnModel> {
    v.map_values(|x: ResultColumn| x@)
}

/// What a statement gives its client.
#[derive(Clone, PartialEq, Eq, Debug)]
pub enum StatementResult {
    Command { tag: String, rows_affected: u64 },
    Query { columns: Vec<ResultColumn>, rows: Vec<Row> },
    Notice { message: String },
}

pub enum ResultModel {
    Command { tag: Seq<char>, rows_affected: u64 },
    Query { columns: Seq<ColumnModel>, rows: Seq<Seq<ValueModel>> },
    Notice { message: Seq<char> },
}

impl View for StatementResult {
    type V = ResultModel;

    open spec fn view(&self) -> ResultModel {
        match *self {
            StatementResult::Command { tag, rows_affected } => ResultModel::Command {
                tag: tag@,
                rows_affected,
            },
            StatementResult::Query { columns, rows } => ResultModel::Query {
                columns: columns_view(columns@),
                rows: rows_view(rows@),
            },
            StatementResult::Notice { message } => ResultModel::Notice { message: message@ },
        }
    }
}

pub open spec fn results_view(v: Seq<StatementResult>) -> Seq<ResultModel> {
    v.map_values(|x: StatementResult| x@)
}

/// A value as a client sees it.
pub open spec fn rendered_value(t: Seq<Seq<char>>, d: Datum) -> ValueModel {
    match d {
        Datum::Null => ValueModel::Null,
        Datum::Int(n) => ValueModel::Int(n),
        Datum::Big(n) => ValueModel::BigInt(n),
        Datum::Bool(b) => ValueModel::Boolean(b),
        Datum::Text(s) => ValueModel::Text(symbols::text_at(t, s)),
    }
}

fn render_value(t: &Symbols, d: Datum) -> (r: Value)
    ensures
        r@ == rendered_value(t@, d),
{
    match d {
        Datum::Null => Value::Null,
        Datum::Int(n) => Value::Int(n),
        Datum::Big(n) => Value::BigInt(n),
        Datum::Bool(b) => Value::Boolean(b),
        Datum::Text(s) => Value::Text(t.text(s)),
    }
}

/// A row as a client sees it, behind the values `acc`.
pub open spec fn rendered_row(t: Seq<Seq<char>>, row: Tuple, acc: Seq<ValueModel>) -> Seq<ValueModel>
    decreases row,
{
    match row {
        Tuple::Nil => acc,
        Tuple::Cons(d, rest) => rendered_row(t, *rest, acc.push(rendered_value(t, d))),
    }
}

fn render_row(t: &Symbols, row: &Tuple, acc: Vec<Value>) -> (r: Vec<Value>)
    ensures
        values_view(r@) == rendered_row(t@, *row, values_view(acc@)),
    decreases row,
{
    match row {
        Tuple::Nil => acc,
        Tuple::Cons(d, rest) => {
            let mut more: Vec<Value> = acc;
            let v: Value = render_value(t, *d);
            more.push(v);
            assert(values_view(more@) =~= values_view(acc@).push(v@));
            render_row(t, rest, more)
        },
    }
}

/// Rows as a client sees them.
pub open spec fn rendered_rows(t: Seq<Seq<char>>, rows: Seq<Tuple>) -> Seq<Seq<ValueModel>> {
    rows.map_values(|r: Tuple| rendered_row(t, r, Seq::empty()))
}

pub fn render_rows(t: &Symbols, rows: &Vec<Tuple>) -> (r: Vec<Row>)
    ensures
        rows_view(r@) == rendered_rows(t@, rows@),
{
    let mut out: Vec<Row> = Vec::new();
    let mut i: usize = 0;
    while i < rows.len()
        invariant
            i <= rows.len(),
            out@.len() == i,
            forall|j: int| 0 <= j < i ==> (#[trigger] out@[j])@ == rendered_row(
                t@,
                rows@[j],
                Seq::empty(),
            ),
        decreases rows.len() - i,
    {
        let none: Vec<Value> = Vec::new();
        assert(values_view(none@) =~= Seq::<ValueModel>::empty());
        let values: Vec<Value> = render_row(t, &rows[i], none);
        out.push(Row { values });
        i += 1;
    }
    assert(rows_view(out@) =~= rendered_rows(t@, rows@));
    out
}

/// The type under which a column is reported; one without a type of its own is a
/// text.
pub open spec fn reported_type(ty: Option<DataType>) -> DataType {
    match ty {
        Some(d) => d,
        None => DataType::Text,
    }
}

/// A column as a client sees it.
pub open spec fn rendered_column(t: Seq<Seq<char>>, f: Field) -> ColumnModel {
    ColumnModel {
        name: symbols::text_at(t, f.name),
        data_type: reported_type(f.ty),
        text_type_modifier: None,
        nullable: f.nullable,
    }
}

/// Columns as a client sees them, behind the columns `acc`.
pub open spec fn rendered_columns(
    t: Seq<Seq<char>>,
    fs: Fields,
    acc: Seq<ColumnModel>,
) -> Seq<ColumnModel>
    decreases fs,
{
    match fs {
        Fields::Nil => acc,
        Fields::Cons(f, rest) => rendered_columns(t, *rest, acc.push(rendered_column(t, f))),
    }
}

fn render_columns(t: &Symbols, fs: &Fields, acc: Vec<ResultColumn>) -> (r: Vec<ResultColumn>)
    ensures
        columns_view(r@) == rendered_columns(t@, *fs, columns_view(acc@)),
    decreases fs,
{
    match fs {
        Fields::Nil => acc,
        Fields::Cons(f, rest) => {
            let mut more: Vec<ResultColumn> = acc;
            let c: ResultColumn = ResultColumn {
                name: t.text(f.name),
                data_type: match f.ty {
                    Some(d) => d,
                    None => DataType::Text,
                },
                text_type_modifier: None,
                nullable: f.nullable,
            };
            more.push(c);
            assert(columns_view(more@) =~= columns_view(acc@).push(c@));
            render_columns(t, rest, more)
        },
    }
}

/// The columns of a query as a client sees them.
pub open spec fn described(t: Seq<Seq<char>>, fs: Fields) -> Seq<ColumnModel> {
    rendered_columns(t, fs, Seq::empty())
}

/// The columns of a query as a client sees them.
pub fn describe(t: &Symbols, fs: &Fields) -> (r: Vec<ResultColumn>)
    ensures
        columns_view(r@) == described(t@, *fs),
{
    let none: Vec<ResultColumn> = Vec::new();
    assert(columns_view(none@) =~= Seq::<ColumnModel>::empty());
    render_columns(t, fs, none)
}

/// The name of a command with a number of rows. That of an insertion has a zero
/// between the two.
pub open spec fn counted_tag(tag: Tag, n: nat) -> Seq<char> {
    fault::tag_text(tag) + (if tag == Tag::Insert {
        " 0 "@
    } else {
        " "@
    }) + text::decimal(n)
}

/// The name of a command with a number of rows.
pub fn tag_with_count(tag: Tag, n: u64) -> (r: String)
    ensures
        r@ == counted_tag(tag, n as nat),
{
    let mut s: String = text::owned(fault::tag_name(tag));
    if tag == Tag::Insert {
        s.append(" 0 ");
    } else {
        s.append(" ");
    }
    text::push_decimal(&mut s, n);
    s
}

/// A reply as a client sees it.
pub open spec fn rendered(t: Seq<Seq<char>>, r: ReplyModel) -> ResultModel {
    match r {
        ReplyModel::Notice(n) => ResultModel::Notice { message: notice::notice_message(t, n) },
        ReplyModel::Answer(AnswerModel::Command(tag, n)) => ResultModel::Command {
            tag: fault::tag_text(tag),
            rows_affected: n,
        },
        ReplyModel::Answer(AnswerModel::Rows(fs, rows)) => ResultModel::Query {
            columns: described(t, fs),
            rows: rendered_rows(t, rows),
        },
        ReplyModel::Answer(AnswerModel::Moved(n)) => ResultModel::Command {
            tag: counted_tag(Tag::Move, n as nat),
            rows_affected: 0,
        },
        ReplyModel::Answer(AnswerModel::Shown(name, s)) => ResultModel::Query {
            columns: seq![
                ColumnModel {
                    name: symbols::text_at(t, name),
                    data_type: DataType::Text,
                    text_type_modifier: None,
                    nullable: false,
                },
            ],
            rows: seq![seq![ValueModel::Text(s)]],
        },
    }
}

pub fn render(t: &Symbols, r: Reply) -> (out: StatementResult)
    ensures
        out@ == rendered(t@, r@),
{
    match r {
        Reply::Notice(n) => StatementResult::Notice { message: n.message(t) },
        Reply::Answer(Answer::Command(tag, n)) => StatementResult::Command {
            tag: text::owned(fault::tag_name(tag)),
            rows_affected: n,
        },
        Reply::Answer(Answer::Rows(fs, rows)) => StatementResult::Query {
            columns: describe(t, &fs),
            rows: render_rows(t, &rows),
        },
        Reply::Answer(Answer::Moved(n)) => StatementResult::Command {
            tag: tag_with_count(Tag::Move, n),
            rows_affected: 0,
        },
        Reply::Answer(Answer::Shown(name, s)) => {
            let c: ResultColumn = ResultColumn {
                name: t.text(name),
                data_type: DataType::Text,
                text_type_modifier: None,
                nullable: false,
            };
            let v: Value = Value::Text(s);
            let row: Row = Row { values: vec![v] };
            assert(row@ =~= seq![v@]);
            let columns: Vec<ResultColumn> = vec![c];
            let rows: Vec<Row> = vec![row];
            assert(columns_view(columns@) =~= seq![c@]);
            assert(rows_view(rows@) =~= seq![row@]);
            StatementResult::Query { columns, rows }
        },
    }
}

/// Replies as a client sees them.
pub open spec fn rendered_all(t: Seq<Seq<char>>, rs: Seq<ReplyModel>) -> Seq<ResultModel> {
    rs.map_values(|r: ReplyModel| rendered(t, r))
}

/// Replies as a client sees them.
pub fn render_all(t: &Symbols, rs: Vec<Reply>) -> (out: Vec<StatementResult>)
    ensures
        results_view(out@) == rendered_all(t@, session::replies_view(rs@)),
{
    let ghost all = session::replies_view(rs@);
    let mut rest: Vec<Reply> = rs;
    let mut back: Vec<StatementResult> = Vec::new();
    // The replies are taken from the end; `back` holds them in reverse.
    while rest.len() > 0
        invariant
            rest@.len() + back@.len() == all.len(),
            session::replies_view(rest@) =~= all.take(rest@.len() as int),
            forall|j: int|
                0 <= j < back@.len() ==> (#[trigger] back@[j])@ == rendered(
                    t@,
                    all[all.len() - 1 - j],
                ),
        decreases rest.len(),
    {
        let ghost before = rest@;
        match rest.pop() {
            None => {},
            Some(r) => {
                assert(session::replies_view(before)[before.len() - 1] == r@);
                assert(session::replies_view(rest@) =~= session::replies_view(before).drop_last());
                back.push(render(t, r));
            },
        }
    }
    let mut out: Vec<StatementResult> = Vec::new();
    let ghost reversed = back@;
    while back.len() > 0
        invariant
            back@ =~= reversed.take(back@.len() as int),
            reversed.len() == all.len(),
            out@.len() + back@.len() == all.len(),
            forall|j: int|
                0 <= j < reversed.len() ==> (#[trigger] reversed[j])@ == rendered(
                    t@,
                    all[all.len() - 1 - j],
                ),
            forall|j: int| 0 <= j < out@.len() ==> (#[trigger] out@[j])@ == rendered(t@, all[j]),
        decreases back.len(),
    {
        let ghost k = back@.len() - 1;
        match back.pop() {
            None => {},
            Some(r) => {
                assert(r == reversed[k]);
                out.push(r);
            },
        }
    }
    assert(results_view(out@) =~= rendered_all(t@, all));
    out
}

/// The text of a value.
pub open spec fn value_text(v: ValueModel) -> Seq<char> {
    match v {
        ValueModel::Null => "NULL"@,
        ValueModel::Int(n) => text::signed_decimal(n as int),
        ValueModel::BigInt(n) => text::signed_decimal(n as int),
        ValueModel::Boolean(b) => if b {
            "true"@
        } else {
            "false"@
        },
        ValueModel::Text(s) => s,
    }
}

impl Value {
    /// The text of a value.
    pub fn to_string(&self) -> (r: String)
        ensures
            r@ == value_text(self@),
    {
        let mut s: String = String::new();
        match self {
            Value::Null => {
                s.append("NULL");
            },
            Value::Int(n) => {
                text::push_signed(&mut s, *n as i64);
            },
            Value::BigInt(n) => {
                text::push_signed(&mut s, *n);
            },
            Value::Boolean(b) => {
                if *b {
                    s.append("true");
                } else {
                    s.append("false");
                }
            },
            Value::Text(w) => {
                s.append(w.as_str());
            },
        }
        assert(s@ =~= value_text(self@));
        s
    }
}

} // verus!
