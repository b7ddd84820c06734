//! The words that statements are made of.

use vstd::prelude::*;
use crate::text;

verus! {

/// The words with a meaning of their own, and the words that are reserved; every
/// other word is plain.
#[derive(Clone, Copy, PartialEq, Eq, Debug, Structural)]
pub enum Kw {
    Plain,
    Select,
    From,
    Where,
    Group,
    By,
    Having,
    Order,
    Limit,
    Offset,
    Distinct,
    On,
    As,
    And,
    Or,
    Not,
    In,
    Exists,
    Between,
    Is,
    Null,
    True,
    False,
    Case,
    When,
    Then,
    Else,
    End,
    Union,
    Intersect,
    Except,
    All,
    Asc,
    Desc,
    Nulls,
    First,
    Last,
    Join,
    Inner,
    Left,
    Right,
    Full,
    Outer,
    Cross,
    Natural,
    Using,
    Values,
    Insert,
    Into,
    Update,
    SetTo,
    Delete,
    Create,
    Table,
    Drop,
    If,
    Index,
    Schema,
    Sequence,
    Primary,
    Key,
    Unique,
    Default,
    Int,
    Integer,
    Int4,
    Bigint,
    Int8,
    Boolean,
    Bool,
    Text,
    Begin,
    Start,
    Transaction,
    Work,
    Commit,
    Rollback,
    Savepoint,
    To,
    Release,
    Isolation,
    Level,
    Read,
    Only,
    Write,
    Committed,
    Uncommitted,
    Repeatable,
    Serializable,
    Role,
    User,
    With,
    Login,
    Nologin,
    Superuser,
    Nosuperuser,
    Password,
    Alter,
    Grant,
    Revoke,
    Privileges,
    Local,
    Session,
    Show,
    CurrentUser,
    SessionUser,
    Inherits,
    Count,
    Sum,
    Min,
    Max,
    Coalesce,
    Cast,
    Reset,
    Like,
    Constraint,
    Foreign,
    References,
    Check,
    Cascade,
    Restrict,
    Temp,
    Temporary,
    Option,
    For,
    Nextval,
    Varchar,
    Character,
    Varying,
    Char,
    Type,
    Function,
    Returns,
    Language,
    Without,
    Implicit,
    Assignment,
    Elsif,
    Raise,
    Notice,
    Conflict,
    Do,
    Nothing,
    Admin,
    Granted,
    Returning,
    Owned,
    Reassign,
    Authorization,
    CurrentRole,
    Transform,
    GenerateSeries,
    Rows,
    Prepared,
    Filter,
    Over,
    Partition,
    RowNumber,
    Rank,
    Lag,
    Lead,
    Upper,
    Lower,
    Length,
    Trim,
    Substring,
    Concat,
    Replace,
    Position,
    Lpad,
    Rpad,
    Repeat,
    Nullif,
    Snapshot,
    Deferrable,
    Characteristics,
    Constraints,
    Immediate,
    Deferred,
    Declare,
    Cursor,
    Scroll,
    Fetch,
    Move,
    Close,
    Next,
    Prior,
    Forward,
    Backward,
    Add,
    Column,
}

/// The meaning of a word in lower case.
pub open spec fn keyword(w: Seq<char>) -> Kw {
    if w == "select"@ {
        Kw::Select
    } else if w == "from"@ {
        Kw::From
    } else if w == "where"@ {
        Kw::Where
    } else if w == "group"@ {
        Kw::Group
    } else if w == "by"@ {
        Kw::By
    } else if w == "having"@ {
        Kw::Having
    } else if w == "order"@ {
        Kw::Order
    } else if w == "limit"@ {
        Kw::Limit
    } else if w == "offset"@ {
        Kw::Offset
    } else if w == "distinct"@ {
        Kw::Distinct
    } else if w == "on"@ {
        Kw::On
    } else if w == "as"@ {
        Kw::As
    } else if w == "and"@ {
        Kw::And
    } else if w == "or"@ {
        Kw::Or
    } else if w == "not"@ {
        Kw::Not
    } else if w == "in"@ {
        Kw::In
    } else if w == "exists"@ {
        Kw::Exists
    } else if w == "between"@ {
        Kw::Between
    } else if w == "is"@ {
        Kw::Is
    } else if w == "null"@ {
        Kw::Null
    } else if w == "true"@ {
        Kw::True
    } else if w == "false"@ {
        Kw::False
    } else if w == "case"@ {
        Kw::Case
    } else if w == "when"@ {
        Kw::When
    } else if w == "then"@ {
        Kw::Then
    } else if w == "else"@ {
        Kw::Else
    } else if w == "end"@ {
        Kw::End
    } else if w == "union"@ {
        Kw::Union
    } else if w == "intersect"@ {
        Kw::Intersect
    } else if w == "except"@ {
        Kw::Except
    } else if w == "all"@ {
        Kw::All
    } else if w == "asc"@ {
        Kw::Asc
    } else if w == "desc"@ {
        Kw::Desc
    } else if w == "nulls"@ {
        Kw::Nulls
    } else if w == "first"@ {
        Kw::First
    } else if w == "last"@ {
        Kw::Last
    } else if w == "join"@ {
        Kw::Join
    } else if w == "inner"@ {
        Kw::Inner
    } else if w == "left"@ {
        Kw::Left
    } else if w == "right"@ {
        Kw::Right
    } else if w == "full"@ {
        Kw::Full
    } else if w == "outer"@ {
        Kw::Outer
    } else if w == "cross"@ {
        Kw::Cross
    } else if w == "natural"@ {
        Kw::Natural
    } else if w == "using"@ {
        Kw::Using
    } else if w == "values"@ {
        Kw::Values
    } else if w == "insert"@ {
        Kw::Insert
    } else if w == "into"@ {
        Kw::Into
    } else if w == "update"@ {
        Kw::Update
    } else if w == "set"@ {
        Kw::SetTo
    } else if w == "delete"@ {
        Kw::Delete
    } else if w == "create"@ {
        Kw::Create
    } else if w == "table"@ {
        Kw::Table
    } else if w == "drop"@ {
        Kw::Drop
    } else if w == "if"@ {
        Kw::If
    } else if w == "index"@ {
        Kw::Index
    } else if w == "schema"@ {
        Kw::Schema
    } else if w == "sequence"@ {
        Kw::Sequence
    } else if w == "primary"@ {
        Kw::Primary
    } else if w == "key"@ {
        Kw::Key
    } else if w == "unique"@ {
        Kw::Unique
    } else if w == "default"@ {
        Kw::Default
    } else if w == "int"@ {
        Kw::Int
    } else if w == "integer"@ {
        Kw::Integer
    } else if w == "int4"@ {
        Kw::Int4
    } else if w == "bigint"@ {
        Kw::Bigint
    } else if w == "int8"@ {
        Kw::Int8
    } else if w == "boolean"@ {
        Kw::Boolean
    } else if w == "bool"@ {
        Kw::Bool
    } else if w == "text"@ {
        Kw::Text
    } else if w == "begin"@ {
        Kw::Begin
    } else if w == "start"@ {
        Kw::Start
    } else if w == "transaction"@ {
        Kw::Transaction
    } else if w == "work"@ {
        Kw::Work
    } else if w == "commit"@ {
        Kw::Commit
    } else if w == "rollback"@ {
        Kw::Rollback
    } else if w == "savepoint"@ {
        Kw::Savepoint
    } else if w == "to"@ {
        Kw::To
    } else if w == "release"@ {
        Kw::Release
    } else if w == "isolation"@ {
        Kw::Isolation
    } else if w == "level"@ {
        Kw::Level
    } else if w == "read"@ {
        Kw::Read
    } else if w == "only"@ {
        Kw::Only
    } else if w == "write"@ {
        Kw::Write
    } else if w == "committed"@ {
        Kw::Committed
    } else if w == "uncommitted"@ {
        Kw::Uncommitted
    } else if w == "repeatable"@ {
        Kw::Repeatable
    } else if w == "serializable"@ {
        Kw::Serializable
    } else if w == "role"@ {
        Kw::Role
    } else if w == "user"@ {
        Kw::User
    } else if w == "with"@ {
        Kw::With
    } else if w == "login"@ {
        Kw::Login
    } else if w == "nologin"@ {
        Kw::Nologin
    } else if w == "superuser"@ {
        Kw::Superuser
    } else if w == "nosuperuser"@ {
        Kw::Nosuperuser
    } else if w == "password"@ {
        Kw::Password
    } else if w == "alter"@ {
        Kw::Alter
    } else if w == "grant"@ {
        Kw::Grant
    } else if w == "revoke"@ {
        Kw::Revoke
    } else if w == "privileges"@ {
        Kw::Privileges
    } else if w == "local"@ {
        Kw::Local
    } else if w == "session"@ {
        Kw::Session
    } else if w == "show"@ {
        Kw::Show
    } else if w == "current_user"@ {
        Kw::CurrentUser
    } else if w == "session_user"@ {
        Kw::SessionUser
    } else if w == "inherits"@ {
        Kw::Inherits
    } else if w == "count"@ {
        Kw::Count
    } else if w == "sum"@ {
        Kw::Sum
    } else if w == "min"@ {
        Kw::Min
    } else if w == "max"@ {
        Kw::Max
    } else if w == "coalesce"@ {
        Kw::Coalesce
    } else if w == "cast"@ {
        Kw::Cast
    } else if w == "reset"@ {
        Kw::Reset
    } else if w == "like"@ {
        Kw::Like
    } else if w == "constraint"@ {
        Kw::Constraint
    } else if w == "foreign"@ {
        Kw::Foreign
    } else if w == "references"@ {
        Kw::References
    } else if w == "check"@ {
        Kw::Check
    } else if w == "cascade"@ {
        Kw::Cascade
    } else if w == "restrict"@ {
        Kw::Restrict
    } else if w == "temp"@ {
        Kw::Temp
    } else if w == "temporary"@ {
        Kw::Temporary
    } else if w == "option"@ {
        Kw::Option
    } else if w == "for"@ {
        Kw::For
    } else if w == "nextval"@ {
        Kw::Nextval
    } else if w == "varchar"@ {
        Kw::Varchar
    } else if w == "character"@ {
        Kw::Character
    } else if w == "varying"@ {
        Kw::Varying
    } else if w == "char"@ {
        Kw::Char
    } else if w == "type"@ {
        Kw::Type
    } else if w == "function"@ {
        Kw::Function
    } else if w == "returns"@ {
        Kw::Returns
    } else if w == "language"@ {
        Kw::Language
    } else if w == "without"@ {
        Kw::Without
    } else if w == "implicit"@ {
        Kw::Implicit
    } else if w == "assignment"@ {
        Kw::Assignment
    } else if w == "elsif"@ {
        Kw::Elsif
    } else if w == "raise"@ {
        Kw::Raise
    } else if w == "notice"@ {
        Kw::Notice
    } else if w == "conflict"@ {
        Kw::Conflict
    } else if w == "do"@ {
        Kw::Do
    } else if w == "nothing"@ {
        Kw::Nothing
    } else if w == "admin"@ {
        Kw::Admin
    } else if w == "granted"@ {
        Kw::Granted
    } else if w == "returning"@ {
        Kw::Returning
    } else if w == "owned"@ {
        Kw::Owned
    } else if w == "reassign"@ {
        Kw::Reassign
    } else if w == "authorization"@ {
        Kw::Authorization
    } else if w == "current_role"@ {
        Kw::CurrentRole
    } else if w == "transform"@ {
        Kw::Transform
    } else if w == "generate_series"@ {
        Kw::GenerateSeries
    } else if w == "rows"@ {
        Kw::Rows
    } else if w == "prepared"@ {
        Kw::Prepared
    } else if w == "filter"@ {
        Kw::Filter
    } else if w == "over"@ {
        Kw::Over
    } else if w == "partition"@ {
        Kw::Partition
    } else if w == "row_number"@ {
        Kw::RowNumber
    } else if w == "rank"@ {
        Kw::Rank
    } else if w == "lag"@ {
        Kw::Lag
    } else if w == "lead"@ {
        Kw::Lead
    } else if w == "upper"@ {
        Kw::Upper
    } else if w == "lower"@ {
        Kw::Lower
    } else if w == "length"@ {
        Kw::Length
    } else if w == "trim"@ {
        Kw::Trim
    } else if w == "substring"@ {
        Kw::Substring
    } else if w == "concat"@ {
        Kw::Concat
    } else if w == "replace"@ {
        Kw::Replace
    } else if w == "position"@ {
        Kw::Position
    } else if w == "lpad"@ {
        Kw::Lpad
    } else if w == "rpad"@ {
        Kw::Rpad
    } else if w == "repeat"@ {
        Kw::Repeat
    } else if w == "nullif"@ {
        Kw::Nullif
    } else if w == "snapshot"@ {
        Kw::Snapshot
    } else if w == "deferrable"@ {
        Kw::Deferrable
    } else if w == "characteristics"@ {
        Kw::Characteristics
    } else if w == "constraints"@ {
        Kw::Constraints
    } else if w == "immediate"@ {
        Kw::Immediate
    } else if w == "deferred"@ {
        Kw::Deferred
    } else if w == "declare"@ {
        Kw::Declare
    } else if w == "cursor"@ {
        Kw::Cursor
    } else if w == "scroll"@ {
        Kw::Scroll
    } else if w == "fetch"@ {
        Kw::Fetch
    } else if w == "move"@ {
        Kw::Move
    } else if w == "close"@ {
        Kw::Close
    } else if w == "next"@ {
        Kw::Next
    } else if w == "prior"@ {
        Kw::Prior
    } else if w == "forward"@ {
        Kw::Forward
    } else if w == "backward"@ {
        Kw::Backward
    } else if w == "add"@ {
        Kw::Add
    } else if w == "column"@ {
        Kw::Column
    } else {
        Kw::Plain
    }
}

/// Whether a word cannot be a name unless it is quoted.
pub open spec fn reserved(k: Kw) -> bool {
    match k {
        Kw::Returning => true,
        Kw::Select => true,
        Kw::From => true,
        Kw::Where => true,
        Kw::Group => true,
        Kw::Having => true,
        Kw::Order => true,
        Kw::Limit => true,
        Kw::Offset => true,
        Kw::Distinct => true,
        Kw::On => true,
        Kw::As => true,
        Kw::And => true,
        Kw::Or => true,
        Kw::Not => true,
        Kw::In => true,
        Kw::Null => true,
        Kw::True => true,
        Kw::False => true,
        Kw::Case => true,
        Kw::When => true,
        Kw::Then => true,
        Kw::Else => true,
        Kw::End => true,
        Kw::Union => true,
        Kw::Intersect => true,
        Kw::Except => true,
        Kw::All => true,
        Kw::Asc => true,
        Kw::Desc => true,
        Kw::Join => true,
        Kw::Inner => true,
        Kw::Left => true,
        Kw::Right => true,
        Kw::Full => true,
        Kw::Cross => true,
        Kw::Natural => true,
        Kw::Using => true,
        Kw::Create => true,
        Kw::Table => true,
        Kw::Into => true,
        Kw::Default => true,
        Kw::Primary => true,
        Kw::Unique => true,
        Kw::CurrentUser => true,
        Kw::SessionUser => true,
        Kw::User => true,
        Kw::Grant => true,
        Kw::Foreign => true,
        Kw::References => true,
        Kw::Check => true,
        Kw::Constraint => true,
        Kw::With => true,
        Kw::For => true,
        Kw::Like => true,
        Kw::Is => true,
        _ => false,
    }
}

/// The meaning of a word in lower case.
pub fn keyword_of(w: &Vec<char>) -> (r: Kw)
    ensures
        r == keyword(w@),
{
    if text::spells(w, "select") {
        Kw::Select
    } else if text::spells(w, "from") {
        Kw::From
    } else if text::spells(w, "where") {
        Kw::Where
    } else if text::spells(w, "group") {
        Kw::Group
    } else if text::spells(w, "by") {
        Kw::By
    } else if text::spells(w, "having") {
        Kw::Having
    } else if text::spells(w, "order") {
        Kw::Order
    } else if text::spells(w, "limit") {
        Kw::Limit
    } else if text::spells(w, "offset") {
        Kw::Offset
    } else if text::spells(w, "distinct") {
        Kw::Distinct
    } else if text::spells(w, "on") {
        Kw::On
    } else if text::spells(w, "as") {
        Kw::As
    } else if text::spells(w, "and") {
        Kw::And
    } else if text::spells(w, "or") {
        Kw::Or
    } else if text::spells(w, "not") {
        Kw::Not
    } else if text::spells(w, "in") {
        Kw::In
    } else if text::spells(w, "exists") {
        Kw::Exists
    } else if text::spells(w, "between") {
        Kw::Between
    } else if text::spells(w, "is") {
        Kw::Is
    } else if text::spells(w, "null") {
        Kw::Null
    } else if text::spells(w, "true") {
        Kw::True
    } else if text::spells(w, "false") {
        Kw::False
    } else if text::spells(w, "case") {
        Kw::Case
    } else if text::spells(w, "when") {
        Kw::When
    } else if text::spells(w, "then") {
        Kw::Then
    } else if text::spells(w, "else") {
        Kw::Else
    } else if text::spells(w, "end") {
        Kw::End
    } else if text::spells(w, "union") {
        Kw::Union
    } else if text::spells(w, "intersect") {
        Kw::Intersect
    } else if text::spells(w, "except") {
        Kw::Except
    } else if text::spells(w, "all") {
        Kw::All
    } else if text::spells(w, "asc") {
        Kw::Asc
    } else if text::spells(w, "desc") {
        Kw::Desc
    } else if text::spells(w, "nulls") {
        Kw::Nulls
    } else if text::spells(w, "first") {
        Kw::First
    } else if text::spells(w, "last") {
        Kw::Last
    } else if text::spells(w, "join") {
        Kw::Join
    } else if text::spells(w, "inner") {
        Kw::Inner
    } else if text::spells(w, "left") {
        Kw::Left
    } else if text::spells(w, "right") {
        Kw::Right
    } else if text::spells(w, "full") {
        Kw::Full
    } else if text::spells(w, "outer") {
        Kw::Outer
    } else if text::spells(w, "cross") {
        Kw::Cross
    } else if text::spells(w, "natural") {
        Kw::Natural
    } else if text::spells(w, "using") {
        Kw::Using
    } else if text::spells(w, "values") {
        Kw::Values
    } else if text::spells(w, "insert") {
        Kw::Insert
    } else if text::spells(w, "into") {
        Kw::Into
    } else if text::spells(w, "update") {
        Kw::Update
    } else if text::spells(w, "set") {
        Kw::SetTo
    } else if text::spells(w, "delete") {
        Kw::Delete
    } else if text::spells(w, "create") {
        Kw::Create
    } else if text::spells(w, "table") {
        Kw::Table
    } else if text::spells(w, "drop") {
        Kw::Drop
    } else if text::spells(w, "if") {
        Kw::If
    } else if text::spells(w, "index") {
        Kw::Index
    } else if text::spells(w, "schema") {
        Kw::Schema
    } else if text::spells(w, "sequence") {
        Kw::Sequence
    } else if text::spells(w, "primary") {
        Kw::Primary
    } else if text::spells(w, "key") {
        Kw::Key
    } else if text::spells(w, "unique") {
        Kw::Unique
    } else if text::spells(w, "default") {
        Kw::Default
    } else if text::spells(w, "int") {
        Kw::Int
    } else if text::spells(w, "integer") {
        Kw::Integer
    } else if text::spells(w, "int4") {
        Kw::Int4
    } else if text::spells(w, "bigint") {
        Kw::Bigint
    } else if text::spells(w, "int8") {
        Kw::Int8
    } else if text::spells(w, "boolean") {
        Kw::Boolean
    } else if text::spells(w, "bool") {
        Kw::Bool
    } else if text::spells(w, "text") {
        Kw::Text
    } else if text::spells(w, "begin") {
        Kw::Begin
    } else if text::spells(w, "start") {
        Kw::Start
    } else if text::spells(w, "transaction") {
        Kw::Transaction
    } else if text::spells(w, "work") {
        Kw::Work
    } else if text::spells(w, "commit") {
        Kw::Commit
    } else if text::spells(w, "rollback") {
        Kw::Rollback
    } else if text::spells(w, "savepoint") {
        Kw::Savepoint
    } else if text::spells(w, "to") {
        Kw::To
    } else if text::spells(w, "release") {
        Kw::Release
    } else if text::spells(w, "isolation") {
        Kw::Isolation
    } else if text::spells(w, "level") {
        Kw::Level
    } else if text::spells(w, "read") {
        Kw::Read
    } else if text::spells(w, "only") {
        Kw::Only
    } else if text::spells(w, "write") {
        Kw::Write
    } else if text::spells(w, "committed") {
        Kw::Committed
    } else if text::spells(w, "uncommitted") {
        Kw::Uncommitted
    } else if text::spells(w, "repeatable") {
        Kw::Repeatable
    } else if text::spells(w, "serializable") {
        Kw::Serializable
    } else if text::spells(w, "role") {
        Kw::Role
    } else if text::spells(w, "user") {
        Kw::User
    } else if text::spells(w, "with") {
        Kw::With
    } else if text::spells(w, "login") {
        Kw::Login
    } else if text::spells(w, "nologin") {
        Kw::Nologin
    } else if text::spells(w, "superuser") {
        Kw::Superuser
    } else if text::spells(w, "nosuperuser") {
        Kw::Nosuperuser
    } else if text::spells(w, "password") {
        Kw::Password
    } else if text::spells(w, "alter") {
        Kw::Alter
    } else if text::spells(w, "grant") {
        Kw::Grant
    } else if text::spells(w, "revoke") {
        Kw::Revoke
    } else if text::spells(w, "privileges") {
        Kw::Privileges
    } else if text::spells(w, "local") {
        Kw::Local
    } else if text::spells(w, "session") {
        Kw::Session
    } else if text::spells(w, "show") {
        Kw::Show
    } else if text::spells(w, "current_user") {
        Kw::CurrentUser
    } else if text::spells(w, "session_user") {
        Kw::SessionUser
    } else if text::spells(w, "inherits") {
        Kw::Inherits
    } else if text::spells(w, "count") {
        Kw::Count
    } else if text::spells(w, "sum") {
        Kw::Sum
    } else if text::spells(w, "min") {
        Kw::Min
    } else if text::spells(w, "max") {
        Kw::Max
    } else if text::spells(w, "coalesce") {
        Kw::Coalesce
    } else if text::spells(w, "cast") {
        Kw::Cast
    } else if text::spells(w, "reset") {
        Kw::Reset
    } else if text::spells(w, "like") {
        Kw::Like
    } else if text::spells(w, "constraint") {
        Kw::Constraint
    } else if text::spells(w, "foreign") {
        Kw::Foreign
    } else if text::spells(w, "references") {
        Kw::References
    } else if text::spells(w, "check") {
        Kw::Check
    } else if text::spells(w, "cascade") {
        Kw::Cascade
    } else if text::spells(w, "restrict") {
        Kw::Restrict
    } else if text::spells(w, "temp") {
        Kw::Temp
    } else if text::spells(w, "temporary") {
        Kw::Temporary
    } else if text::spells(w, "option") {
        Kw::Option
    } else if text::spells(w, "for") {
        Kw::For
    } else if text::spells(w, "nextval") {
        Kw::Nextval
    } else if text::spells(w, "varchar") {
        Kw::Varchar
    } else if text::spells(w, "character") {
        Kw::Character
    } else if text::spells(w, "varying") {
        Kw::Varying
    } else if text::spells(w, "char") {
        Kw::Char
    } else if text::spells(w, "type") {
        Kw::Type
    } else if text::spells(w, "function") {
        Kw::Function
    } else if text::spells(w, "returns") {
        Kw::Returns
    } else if text::spells(w, "language") {
        Kw::Language
    } else if text::spells(w, "without") {
        Kw::Without
    } else if text::spells(w, "implicit") {
        Kw::Implicit
    } else if text::spells(w, "assignment") {
        Kw::Assignment
    } else if text::spells(w, "elsif") {
        Kw::Elsif
    } else if text::spells(w, "raise") {
        Kw::Raise
    } else if text::spells(w, "notice") {
        Kw::Notice
    } else if text::spells(w, "conflict") {
        Kw::Conflict
    } else if text::spells(w, "do") {
        Kw::Do
    } else if text::spells(w, "nothing") {
        Kw::Nothing
    } else if text::spells(w, "admin") {
        Kw::Admin
    } else if text::spells(w, "granted") {
        Kw::Granted
    } else if text::spells(w, "returning") {
        Kw::Returning
    } else if text::spells(w, "owned") {
        Kw::Owned
    } else if text::spells(w, "reassign") {
        Kw::Reassign
    } else if text::spells(w, "authorization") {
        Kw::Authorization
    } else if text::spells(w, "current_role") {
        Kw::CurrentRole
    } else if text::spells(w, "transform") {
        Kw::Transform
    } else if text::spells(w, "generate_series") {
        Kw::GenerateSeries
    } else if text::spells(w, "rows") {
        Kw::Rows
    } else if text::spells(w, "prepared") {
        Kw::Prepared
    } else if text::spells(w, "filter") {
        Kw::Filter
    } else if text::spells(w, "over") {
        Kw::Over
    } else if text::spells(w, "partition") {
        Kw::Partition
    } else if text::spells(w, "row_number") {
        Kw::RowNumber
    } else if text::spells(w, "rank") {
        Kw::Rank
    } else if text::spells(w, "lag") {
        Kw::Lag
    } else if text::spells(w, "lead") {
        Kw::Lead
    } else if text::spells(w, "upper") {
        Kw::Upper
    } else if text::spells(w, "lower") {
        Kw::Lower
    } else if text::spells(w, "length") {
        Kw::Length
    } else if text::spells(w, "trim") {
        Kw::Trim
    } else if text::spells(w, "substring") {
        Kw::Substring
    } else if text::spells(w, "concat") {
        Kw::Concat
    } else if text::spells(w, "replace") {
        Kw::Replace
    } else if text::spells(w, "position") {
        Kw::Position
    } else if text::spells(w, "lpad") {
        Kw::Lpad
    } else if text::spells(w, "rpad") {
        Kw::Rpad
    } else if text::spells(w, "repeat") {
        Kw::Repeat
    } else if text::spells(w, "nullif") {
        Kw::Nullif
    } else if text::spells(w, "snapshot") {
        Kw::Snapshot
    } else if text::spells(w, "deferrable") {
        Kw::Deferrable
    } else if text::spells(w, "characteristics") {
        Kw::Characteristics
    } else if text::spells(w, "constraints") {
        Kw::Constraints
    } else if text::spells(w, "immediate") {
        Kw::Immediate
    } else if text::spells(w, "deferred") {
        Kw::Deferred
    } else if text::spells(w, "declare") {
        Kw::Declare
    } else if text::spells(w, "cursor") {
        Kw::Cursor
    } else if text::spells(w, "scroll") {
        Kw::Scroll
    } else if text::spells(w, "fetch") {
        Kw::Fetch
    } else if text::spells(w, "move") {
        Kw::Move
    } else if text::spells(w, "close") {
        Kw::Close
    } else if text::spells(w, "next") {
        Kw::Next
    } else if text::spells(w, "prior") {
        Kw::Prior
    } else if text::spells(w, "forward") {
        Kw::Forward
    } else if text::spells(w, "backward") {
        Kw::Backward
    } else if text::spells(w, "add") {
        Kw::Add
    } else if text::spells(w, "column") {
        Kw::Column
    } else {
        Kw::Plain
    }
}

/// Whether a word cannot be a name unless it is quoted.
pub fn is_reserved(k: Kw) -> (r: bool)
    ensures
        r == reserved(k),
{
    match k {
        Kw::Returning => true,
        Kw::Select => true,
        Kw::From => true,
        Kw::Where => true,
        Kw::Group => true,
        Kw::Having => true,
        Kw::Order => true,
        Kw::Limit => true,
        Kw::Offset => true,
        Kw::Distinct => true,
        Kw::On => true,
        Kw::As => true,
        Kw::And => true,
        Kw::Or => true,
        Kw::Not => true,
        Kw::In => true,
        Kw::Null => true,
        Kw::True => true,
        Kw::False => true,
        Kw::Case => true,
        Kw::When => true,
        Kw::Then => true,
        Kw::Else => true,
        Kw::End => true,
        Kw::Union => true,
        Kw::Intersect => true,
        Kw::Except => true,
        Kw::All => true,
        Kw::Asc => true,
        Kw::Desc => true,
        Kw::Join => true,
        Kw::Inner => true,
        Kw::Left => true,
        Kw::Right => true,
        Kw::Full => true,
        Kw::Cross => true,
        Kw::Natural => true,
        Kw::Using => true,
        Kw::Create => true,
        Kw::Table => true,
        Kw::Into => true,
        Kw::Default => true,
        Kw::Primary => true,
        Kw::Unique => true,
        Kw::CurrentUser => true,
        Kw::SessionUser => true,
        Kw::User => true,
        Kw::Grant => true,
        Kw::Foreign => true,
        Kw::References => true,
        Kw::Check => true,
        Kw::Constraint => true,
        Kw::With => true,
        Kw::For => true,
        Kw::Like => true,
        Kw::Is => true,
        _ => false,
    }
}

} // verus!
