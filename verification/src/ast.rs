//! Statements as trees.

use vstd::prelude::*;
use crate::datum::Arith;
use crate::datum::Compare;
use crate::datum::DataType;
use crate::datum::Datum;
use crate::fault::Tag;

verus! {

/// The name of a relation, with its schema where one is given.
#[derive(Clone, Copy, Debug)]
pub struct Name {
    pub schema: Option<usize>,
    pub name: usize,
}

#[derive(Debug)]
pub enum Idents {
    Nil,
    Cons(usize, Box<Idents>),
}

#[derive(Clone, Copy, PartialEq, Eq, Debug, Structural)]
pub enum AggFn {
    Count,
    Sum,
    Min,
    Max,
}

/// A function of the rows around a row: `Rows` counts them, and an aggregate
/// function takes its values from them.
#[derive(Clone, Copy, PartialEq, Eq, Debug, Structural)]
pub enum WindowFn {
    RowNumber,
    Rank,
    Lag,
    Lead,
    Rows,
    Agg(AggFn),
}

/// A function on texts: `Join` is the operator between two texts, `Concat` the
/// function of a list, `Cast` the text of another value.
#[derive(Clone, Copy, PartialEq, Eq, Debug, Structural)]
pub enum TextFn {
    Upper,
    Lower,
    Length,
    Trim,
    Substring,
    Join,
    Concat,
    Replace,
    Position,
    Lpad,
    Rpad,
    Repeat,
    Cast,
    Fill,
}

/// An expression. The flag of a test says whether it is negated. A switch compares
/// a value with that of each branch. A call has a name, and three values of which
/// its function takes the first ones.
#[derive(Debug)]
pub enum Expr {
    Lit(Datum),
    Col(Option<usize>, usize),
    Not(Box<Expr>),
    Negate(Box<Expr>),
    And(Box<Expr>, Box<Expr>),
    Or(Box<Expr>, Box<Expr>),
    Compare(Compare, Box<Expr>, Box<Expr>),
    Arith(Arith, Box<Expr>, Box<Expr>),
    IsNull(Box<Expr>, bool),
    InList(Box<Expr>, Box<Exprs>, bool),
    InQuery(Box<Expr>, Box<Query>, bool),
    Between(Box<Expr>, Box<Expr>, Box<Expr>, bool),
    Exists(Box<Query>),
    Scalar(Box<Query>),
    Case(Box<Whens>, Box<Expr>),
    Coalesce(Box<Exprs>),
    CountRows,
    Agg(AggFn, bool, Box<Expr>),
    Cast(Box<Expr>, DataType),
    Default,
    Param(u64),
    Like(Box<Expr>, Box<Expr>, bool),
    NullIf(Box<Expr>, Box<Expr>),
    Switch(Box<Expr>, Box<Whens>, Box<Expr>),
    Call(TextFn, usize, Box<Expr>, Box<Expr>, Box<Expr>),
    Window(WindowFn, usize, Box<Over>),
    Next(Name, usize),
}

#[derive(Debug)]
pub enum Exprs {
    Nil,
    Cons(Box<Expr>, Box<Exprs>),
}

/// The branches of a case expression: a condition and a result each.
#[derive(Debug)]
pub enum Whens {
    Nil,
    Cons(Box<Expr>, Box<Expr>, Box<Whens>),
}

/// Rows of expressions, as in a list of values.
#[derive(Debug)]
pub enum ExprRows {
    Nil,
    Cons(Box<Exprs>, Box<ExprRows>),
}

/// One entry of a select list.
#[derive(Debug)]
pub enum Item {
    Star,
    TableStar(usize),
    Expr(Box<Expr>, Option<usize>),
}

#[derive(Debug)]
pub enum Items {
    Nil,
    Cons(Item, Box<Items>),
}

#[derive(Clone, Copy, PartialEq, Eq, Debug, Structural)]
pub enum JoinKind {
    Inner,
    Left,
    Right,
    Full,
}

/// Which pairs of rows a join keeps.
#[derive(Debug)]
pub enum JoinOn {
    Always,
    On(Box<Expr>),
    Using(Box<Idents>, Option<usize>),
    Natural,
}

/// Where the rows of a query come from. A query is given a name, and names for its
/// first columns.
#[derive(Debug)]
pub enum Source {
    Nothing,
    Table(Name, Option<usize>),
    Sub(Box<Query>, usize, Box<Idents>),
    Join(JoinKind, Box<Source>, Box<Source>, JoinOn),
}

#[derive(Debug)]
pub enum Distinct {
    No,
    Rows,
    On(Box<Exprs>),
}

/// The argument of a window function, the values that the rows of its window
/// share, and their order.
#[derive(Debug)]
pub struct Over {
    pub arg: Expr,
    pub partition: Exprs,
    pub orders: Orders,
}

/// A query block and the order of its rows. A missing filter is the constant true.
#[derive(Debug)]
pub struct Select {
    pub distinct: Distinct,
    pub items: Items,
    pub source: Source,
    pub filter: Expr,
    pub group: Exprs,
    pub has_having: bool,
    pub having: Expr,
    pub orders: Orders,
}

/// Sort keys; the flags say whether the order is descending and whether nulls come
/// first.
#[derive(Debug)]
pub enum Orders {
    Nil,
    Cons(Box<Expr>, bool, bool, Box<Orders>),
}

#[derive(Clone, Copy, PartialEq, Eq, Debug, Structural)]
pub enum Combine {
    Union,
    Intersect,
    Except,
}

#[derive(Debug)]
pub enum Query {
    Select(Box<Select>),
    Values(Box<ExprRows>),
    Series(Box<Expr>, Box<Expr>),
    Combined(Combine, bool, Box<Query>, Box<Query>),
    Sorted(Box<Query>, Box<Orders>, Option<u64>, u64),
    With(usize, Box<Idents>, Box<Query>, Box<Query>),
}

/// What a column gets when no value is given for it.
#[derive(Clone, Copy, Debug)]
pub enum Filler {
    Null,
    Value(Datum),
    Next(Name),
}

/// How many characters the texts of a column may have, and whether the column is of
/// the type with a fixed length.
#[derive(Clone, Copy, PartialEq, Eq, Debug, Structural)]
pub struct Limit {
    pub length: u64,
    pub fixed: bool,
}

/// A column of a table.
#[derive(Clone, Copy, Debug)]
pub struct Column {
    pub name: usize,
    pub ty: DataType,
    pub not_null: bool,
    pub unique: bool,
    pub filler: Filler,
    pub limit: Option<Limit>,
}

#[derive(Debug)]
pub enum Columns {
    Nil,
    Cons(Column, Box<Columns>),
}

#[derive(Debug)]
pub enum Assigns {
    Nil,
    Cons(usize, Box<Expr>, Box<Assigns>),
}

#[derive(Debug)]
pub enum Feed {
    Values(Box<ExprRows>),
    Query(Box<Query>),
    Fillers,
}

/// The options of a role that a command sets.
#[derive(Clone, Copy, Debug)]
pub struct RoleOptions {
    pub superuser: Option<bool>,
    pub login: Option<bool>,
    pub password: Option<usize>,
}

/// A set of privileges.
#[derive(Clone, Copy, PartialEq, Eq, Debug, Structural)]
pub struct Privileges {
    pub select: bool,
    pub insert: bool,
    pub update: bool,
    pub delete: bool,
    pub create: bool,
}

#[derive(Clone, Copy, Debug)]
pub enum Target {
    Table(Name),
    Schema(usize),
}

/// What an insertion does with a row that agrees with one that is there: it leaves its
/// own out, or changes the one that is there. The column in which rows may agree may be
/// named.
#[derive(Debug)]
pub enum Conflict {
    Nothing(Option<usize>),
    Update(usize, Box<Assigns>, Box<Expr>),
}

/// A function by its name and the types of its values.
#[derive(Debug)]
pub struct Signature {
    pub name: usize,
    pub args: Idents,
}

#[derive(Debug)]
pub enum Signatures {
    Nil,
    Cons(Box<Signature>, Box<Signatures>),
}

/// Casts from a type to a type, with the functions that they go through, if they do.
#[derive(Debug)]
pub enum Casts {
    Nil,
    Cons(usize, usize, Option<Box<Signature>>, Box<Casts>),
}

/// What a session defines for itself or gives up.
#[derive(Debug)]
pub enum Def {
    Type(usize),
    Cast(usize, usize, Option<Box<Signature>>),
    Function(Box<Signature>, usize),
    DropFunction(Box<Signature>, bool, bool),
}

/// A block of code: its variables and what it does.
#[derive(Debug)]
pub struct Block {
    pub vars: Variables,
    pub body: Actions,
}

#[derive(Debug)]
pub enum Variables {
    Nil,
    Cons(usize, DataType, Box<Expr>, Box<Variables>),
}

#[derive(Debug)]
pub enum Action {
    Assign(usize, Box<Expr>),
    Raise(Box<Expr>),
    If(Box<Branches>),
}

#[derive(Debug)]
pub enum Actions {
    Nil,
    Cons(Action, Box<Actions>),
}

#[derive(Debug)]
pub enum Branches {
    Else(Box<Actions>),
    When(Box<Expr>, Box<Actions>, Box<Branches>),
}

/// Tables that are made together with their schema.
#[derive(Debug)]
pub enum TableDefs {
    Nil,
    Cons(Name, bool, Box<Columns>, Option<Name>, Box<TableDefs>),
}

#[derive(Clone, Copy, Debug)]
pub enum Grantee {
    Role(usize),
    CurrentUser,
}

/// Isolation levels of a transaction.
#[derive(Clone, Copy, PartialEq, Eq, Debug, Structural)]
pub enum IsolationLevel {
    ReadCommitted,
    SnapshotIsolation,
    Serializable,
}

#[derive(Clone, Copy, Debug)]
pub struct TxnModes {
    pub isolation: Option<IsolationLevel>,
    pub read_only: Option<bool>,
    pub deferrable: Option<bool>,
}

/// The value that a setting is given.
#[derive(Debug)]
pub enum Setting {
    Default,
    Word(usize),
    Number(u64),
    Words(Box<Idents>),
}

/// What `SET TRANSACTION` and the like speak of.
#[derive(Clone, Copy, PartialEq, Eq, Debug, Structural)]
pub enum Scope {
    Transaction,
    Session,
}

/// Where a cursor is to go: so many rows forward or backward, or as far as there
/// are any; to the first row; to the last.
#[derive(Clone, Copy, PartialEq, Eq, Debug, Structural)]
pub enum Direction {
    Forward(Option<u64>),
    Backward(Option<u64>),
    First,
    Last,
}

/// A statement. A cursor that is declared for something other than a query has
/// none.
#[derive(Debug)]
pub enum Stmt {
    Query(Box<Query>),
    Insert(Name, Box<Idents>, Box<Feed>),
    Upsert(Name, Box<Idents>, Box<Feed>, Box<Conflict>),
    Update(Name, Box<Assigns>, Box<Expr>),
    Delete(Name, Box<Expr>),
    Returning(Box<Stmt>, Box<Items>),
    Draw(Box<Items>),
    CreateTable(Name, bool, Box<Columns>, Option<Name>),
    DropTable(Name, bool),
    AddColumn(Name, Column),
    DropColumn(Name, usize, bool),
    CreateIndex(Name, Box<Idents>),
    CreateSchema(Option<usize>, Box<TableDefs>),
    DropSchema(usize, bool, bool),
    CreateSequence(Name),
    DropSequence(Name, bool),
    Begin(Tag, TxnModes),
    Commit,
    Rollback,
    Savepoint(usize),
    RollbackTo(usize),
    Release(usize),
    CreateRole(usize, RoleOptions),
    AlterRole(usize, RoleOptions),
    DropRole(usize, bool),
    DropOwned(usize),
    ReassignOwned(usize, usize),
    Grant(Privileges, Target, Grantee),
    GrantRole(usize, usize, bool, Option<usize>),
    RevokeRole(usize, usize, bool, Option<usize>),
    Revoke(Privileges, Target, Grantee),
    Assign(bool, usize, Setting),
    Reset(usize),
    SetModes(Scope, TxnModes),
    ResetModes(TxnModes),
    SetConstraints,
    ActAs(Option<usize>, Tag),
    Define(Box<Def>),
    Do(Box<Block>),
    EndPrepared(usize),
    Show(usize),
    Declare(usize, Option<Box<Query>>),
    Fetch(usize, Direction),
    Move(usize, Direction),
    Close(usize),
}

#[derive(Debug)]
pub enum Stmts {
    Nil,
    Cons(Box<Stmt>, Box<Stmts>),
}

} // verus!
