//! What can go wrong, and how it is reported.

use vstd::prelude::*;
use vstd::string::StringExecFns;
use crate::datum::DataType;
use crate::strings::NewText;
use crate::symbols;
use crate::symbols::Symbols;
use crate::text;

verus! {

/// The condition that an error belongs to.
#[derive(Clone, Copy, PartialEq, Eq, Debug, Structural)]
pub enum SqlState {
    SyntaxError,
    SequenceGeneratorLimitExceeded,
    StringDataRightTruncation,
    DuplicateFunction,
    InvalidGrantOperation,
    InvalidColumnReference,
    DependentObjectsStillExist,
    UndefinedTable,
    UndefinedColumn,
    UndefinedFunction,
    UndefinedObject,
    UndefinedParameter,
    AmbiguousColumn,
    DuplicateTable,
    DuplicateColumn,
    DuplicateObject,
    DuplicateSchema,
    InvalidSchemaName,
    DatatypeMismatch,
    InvalidTextRepresentation,
    InvalidParameterValue,
    NumericValueOutOfRange,
    DivisionByZero,
    NotNullViolation,
    UniqueViolation,
    GroupingError,
    CardinalityViolation,
    FeatureNotSupported,
    ProgramLimitExceeded,
    NoActiveSqlTransaction,
    InFailedSqlTransaction,
    InvalidSavepointSpecification,
    ObjectNotInPrerequisiteState,
    SerializationFailure,
    InvalidCursorName,
    DuplicateCursor,
    InsufficientPrivilege,
    InvalidAuthorizationSpecification,
    TooManyAuthenticationFailures,
    ConnectionDoesNotExist,
    InternalError,
}

impl SqlState {
    /// The code of the condition in the standard.
    pub open spec fn code_text(self) -> Seq<char> {
        match self {
            SqlState::SyntaxError => "42601"@,
            SqlState::SequenceGeneratorLimitExceeded => "2200H"@,
            SqlState::StringDataRightTruncation => "22001"@,
            SqlState::DuplicateFunction => "42723"@,
            SqlState::InvalidGrantOperation => "0LP01"@,
            SqlState::InvalidColumnReference => "42P10"@,
            SqlState::DependentObjectsStillExist => "2BP01"@,
            SqlState::UndefinedTable => "42P01"@,
            SqlState::UndefinedColumn => "42703"@,
            SqlState::UndefinedFunction => "42883"@,
            SqlState::UndefinedObject => "42704"@,
            SqlState::UndefinedParameter => "42P02"@,
            SqlState::AmbiguousColumn => "42702"@,
            SqlState::DuplicateTable => "42P07"@,
            SqlState::DuplicateColumn => "42701"@,
            SqlState::DuplicateObject => "42710"@,
            SqlState::DuplicateSchema => "42P06"@,
            SqlState::InvalidSchemaName => "3F000"@,
            SqlState::DatatypeMismatch => "42804"@,
            SqlState::InvalidTextRepresentation => "22P02"@,
            SqlState::InvalidParameterValue => "22023"@,
            SqlState::NumericValueOutOfRange => "22003"@,
            SqlState::DivisionByZero => "22012"@,
            SqlState::NotNullViolation => "23502"@,
            SqlState::UniqueViolation => "23505"@,
            SqlState::GroupingError => "42803"@,
            SqlState::CardinalityViolation => "21000"@,
            SqlState::FeatureNotSupported => "0A000"@,
            SqlState::ProgramLimitExceeded => "54000"@,
            SqlState::NoActiveSqlTransaction => "25P01"@,
            SqlState::InFailedSqlTransaction => "25P02"@,
            SqlState::InvalidSavepointSpecification => "3B001"@,
            SqlState::ObjectNotInPrerequisiteState => "55000"@,
            SqlState::SerializationFailure => "40001"@,
            SqlState::InvalidCursorName => "34000"@,
            SqlState::DuplicateCursor => "42P03"@,
            SqlState::InsufficientPrivilege => "42501"@,
            SqlState::InvalidAuthorizationSpecification => "28000"@,
            SqlState::TooManyAuthenticationFailures => "28000"@,
            SqlState::ConnectionDoesNotExist => "08003"@,
            SqlState::InternalError => "XX000"@,
        }
    }

    /// The code of the condition in the standard.
    pub fn code(self) -> (r: &'static str)
        ensures
            r@ == self.code_text(),
    {
        match self {
            SqlState::SyntaxError => "42601",
            SqlState::SequenceGeneratorLimitExceeded => "2200H",
            SqlState::StringDataRightTruncation => "22001",
            SqlState::DuplicateFunction => "42723",
            SqlState::InvalidGrantOperation => "0LP01",
            SqlState::InvalidColumnReference => "42P10",
            SqlState::DependentObjectsStillExist => "2BP01",
            SqlState::UndefinedTable => "42P01",
            SqlState::UndefinedColumn => "42703",
            SqlState::UndefinedFunction => "42883",
            SqlState::UndefinedObject => "42704",
            SqlState::UndefinedParameter => "42P02",
            SqlState::AmbiguousColumn => "42702",
            SqlState::DuplicateTable => "42P07",
            SqlState::DuplicateColumn => "42701",
            SqlState::DuplicateObject => "42710",
            SqlState::DuplicateSchema => "42P06",
            SqlState::InvalidSchemaName => "3F000",
            SqlState::DatatypeMismatch => "42804",
            SqlState::InvalidTextRepresentation => "22P02",
            SqlState::InvalidParameterValue => "22023",
            SqlState::NumericValueOutOfRange => "22003",
            SqlState::DivisionByZero => "22012",
            SqlState::NotNullViolation => "23502",
            SqlState::UniqueViolation => "23505",
            SqlState::GroupingError => "42803",
            SqlState::CardinalityViolation => "21000",
            SqlState::FeatureNotSupported => "0A000",
            SqlState::ProgramLimitExceeded => "54000",
            SqlState::NoActiveSqlTransaction => "25P01",
            SqlState::InFailedSqlTransaction => "25P02",
            SqlState::InvalidSavepointSpecification => "3B001",
            SqlState::ObjectNotInPrerequisiteState => "55000",
            SqlState::SerializationFailure => "40001",
            SqlState::InvalidCursorName => "34000",
            SqlState::DuplicateCursor => "42P03",
            SqlState::InsufficientPrivilege => "42501",
            SqlState::InvalidAuthorizationSpecification => "28000",
            SqlState::TooManyAuthenticationFailures => "28000",
            SqlState::ConnectionDoesNotExist => "08003",
            SqlState::InternalError => "XX000",
        }
    }
}

/// The name under which a command is reported.
#[derive(Clone, Copy, PartialEq, Eq, Debug, Structural)]
pub enum Tag {
    Select,
    Insert,
    Update,
    Delete,
    CreateTable,
    DropTable,
    CreateIndex,
    CreateSchema,
    DropSchema,
    CreateSequence,
    DropSequence,
    Begin,
    StartTransaction,
    Commit,
    Rollback,
    Savepoint,
    Release,
    RollbackTo,
    ReleaseSavepoint,
    CreateRole,
    AlterRole,
    DropRole,
    DropOwned,
    ReassignOwned,
    CreateTransform,
    Grant,
    Revoke,
    CreateType,
    CreateCast,
    CreateFunction,
    DropFunction,
    Do,
    GrantRole,
    RevokeRole,
    SetVariable,
    Reset,
    SetConstraints,
    Show,
    AlterTable,
    DeclareCursor,
    CloseCursor,
    Declare,
    Fetch,
    Move,
    Close,
}

/// An error, with the names that it is about.
#[derive(Clone, Copy, Debug)]
pub enum Fault {
    UnexpectedCharacter,
    UnterminatedQuote,
    UnterminatedComment,
    NumberTooLarge,
    Syntax { at: usize },
    TooDeep,
    DecimalNumber,
    GrantOption,
    Parameter,
    UndefinedTable { schema: Option<usize>, name: usize },
    UndefinedColumn { table: Option<usize>, name: usize },
    UndefinedFunction { name: usize },
    AmbiguousColumn { name: usize },
    DuplicateTable { name: usize },
    DuplicateColumn { name: usize },
    DuplicateSchema { name: usize },
    SchemaInUse { name: usize },
    SchemaMismatch { stated: usize, made: usize },
    UndefinedSchema { name: usize },
    UndefinedSequence { name: usize },
    OperatorMissing,
    NotBoolean,
    ColumnMismatch { name: usize },
    TypesDiffer,
    UngroupedColumn { table: Option<usize>, name: usize },
    MisplacedAggregate,
    MisplacedWindow,
    ConflictTarget { name: usize },
    ChangedTwice,
    MisplacedDraw,
    SequenceLimit { name: usize },
    MoreThanOneRow,
    SubqueryWidth,
    SetOperationWidth,
    ValuesWidth,
    OrderPosition,
    InsertWidth,
    MisplacedDefault,
    DivisionByZero,
    OutOfRange,
    NegativeLength,
    Unentered { text: NewText },
    InvalidNumber { value: usize },
    TooLong { length: u64 },
    TooLongFixed { length: u64 },
    NullViolation { name: usize },
    UniqueViolation { name: usize },
    NoTransaction { tag: Tag },
    NoSavepoint { name: usize },
    Aborted,
    ReadOnly { tag: Tag },
    Conflict,
    RoleExists { name: usize },
    RoleCycle { role: usize, member: usize },
    NotMember { role: usize, member: usize, grantor: usize },
    TypeExists { name: usize },
    TypeMissing { name: usize },
    CastExists { source: usize, target: usize },
    FunctionExists { name: usize },
    FunctionInUse { name: usize },
    UnknownVariable { name: usize },
    UndefinedPrepared { name: usize },
    RoleMissing { name: usize },
    Denied { name: usize },
    NotSuperuser,
    InvalidSetting { name: usize, value: usize },
    InvalidSettingNumber { name: usize, number: u64 },
    ModeSetting { name: usize },
    UndefinedSetting { name: usize },
    Malformed { tag: Tag },
    CursorWithoutRows,
    NoCursor { name: usize },
    CursorExists { name: usize },
    TooManyStatements,
    TooManyPortals,
    StatementExists { name: usize },
    UnknownStatement { name: usize },
    UnknownPortal { name: usize },
    PortalFinished { name: usize },
    NotOneStatement,
    ParameterCount { needed: u64, given: u64 },
    ParameterType { number: u64, ty: DataType },
    TooManyParameters,
    UnknownSession,
    IdentifiersExhausted,
    StorageSavepointMissing,
    CatalogCreateRefused,
    CatalogRollbackRefused,
    CatalogReleaseRefused,
    PasswordTooShort { least: usize },
    PasswordIsRoleName,
    PasswordNeedsLowercase,
    PasswordNeedsUppercase,
    PasswordNeedsDigit,
    PasswordNeedsSymbol,
    TooManyFailures,
    TlsRequired,
    LoginRefused,
    LoginNotPermitted { name: usize },
    LoginWithoutRole { name: usize },
    LoginWithoutPassword { name: usize },
}

/// What else a report says when a savepoint command stopped half way.
#[derive(Clone, Copy, PartialEq, Eq, Debug, Structural)]
pub enum Aftermath {
    Nothing,
    TransactionRolledBack,
    PartlyReleased,
}

pub open spec fn tag_text(t: Tag) -> Seq<char> {
    match t {
        Tag::Select => "SELECT"@,
        Tag::Insert => "INSERT"@,
        Tag::Update => "UPDATE"@,
        Tag::Delete => "DELETE"@,
        Tag::CreateTable => "CREATE TABLE"@,
        Tag::DropTable => "DROP TABLE"@,
        Tag::CreateIndex => "CREATE INDEX"@,
        Tag::CreateSchema => "CREATE SCHEMA"@,
        Tag::DropSchema => "DROP SCHEMA"@,
        Tag::CreateSequence => "CREATE SEQUENCE"@,
        Tag::DropSequence => "DROP SEQUENCE"@,
        Tag::Begin => "BEGIN"@,
        Tag::StartTransaction => "START TRANSACTION"@,
        Tag::Commit => "COMMIT"@,
        Tag::Rollback => "ROLLBACK"@,
        Tag::Savepoint => "SAVEPOINT"@,
        Tag::Release => "RELEASE"@,
        Tag::RollbackTo => "ROLLBACK TO SAVEPOINT"@,
        Tag::ReleaseSavepoint => "RELEASE SAVEPOINT"@,
        Tag::CreateRole => "CREATE ROLE"@,
        Tag::AlterRole => "ALTER ROLE"@,
        Tag::DropRole => "DROP ROLE"@,
        Tag::DropOwned => "DROP OWNED"@,
        Tag::ReassignOwned => "REASSIGN OWNED"@,
        Tag::CreateTransform => "CREATE TRANSFORM"@,
        Tag::Grant => "GRANT"@,
        Tag::Revoke => "REVOKE"@,
        Tag::CreateType => "CREATE TYPE"@,
        Tag::CreateCast => "CREATE CAST"@,
        Tag::CreateFunction => "CREATE FUNCTION"@,
        Tag::DropFunction => "DROP FUNCTION"@,
        Tag::Do => "DO"@,
        Tag::GrantRole => "GRANT ROLE"@,
        Tag::RevokeRole => "REVOKE ROLE"@,
        Tag::SetVariable => "SET"@,
        Tag::Reset => "RESET"@,
        Tag::SetConstraints => "SET CONSTRAINTS"@,
        Tag::Show => "SHOW"@,
        Tag::AlterTable => "ALTER TABLE"@,
        Tag::DeclareCursor => "DECLARE CURSOR"@,
        Tag::CloseCursor => "CLOSE CURSOR"@,
        Tag::Declare => "DECLARE"@,
        Tag::Fetch => "FETCH"@,
        Tag::Move => "MOVE"@,
        Tag::Close => "CLOSE"@,
    }
}

/// The command name of a tag.
pub fn tag_name(t: Tag) -> (r: &'static str)
    ensures
        r@ == tag_text(t),
{
    match t {
        Tag::Select => "SELECT",
        Tag::Insert => "INSERT",
        Tag::Update => "UPDATE",
        Tag::Delete => "DELETE",
        Tag::CreateTable => "CREATE TABLE",
        Tag::DropTable => "DROP TABLE",
        Tag::CreateIndex => "CREATE INDEX",
        Tag::CreateSchema => "CREATE SCHEMA",
        Tag::DropSchema => "DROP SCHEMA",
        Tag::CreateSequence => "CREATE SEQUENCE",
        Tag::DropSequence => "DROP SEQUENCE",
        Tag::Begin => "BEGIN",
        Tag::StartTransaction => "START TRANSACTION",
        Tag::Commit => "COMMIT",
        Tag::Rollback => "ROLLBACK",
        Tag::Savepoint => "SAVEPOINT",
        Tag::Release => "RELEASE",
        Tag::RollbackTo => "ROLLBACK TO SAVEPOINT",
        Tag::ReleaseSavepoint => "RELEASE SAVEPOINT",
        Tag::CreateRole => "CREATE ROLE",
        Tag::AlterRole => "ALTER ROLE",
        Tag::DropRole => "DROP ROLE",
        Tag::DropOwned => "DROP OWNED",
        Tag::ReassignOwned => "REASSIGN OWNED",
        Tag::CreateTransform => "CREATE TRANSFORM",
        Tag::Grant => "GRANT",
        Tag::Revoke => "REVOKE",
        Tag::CreateType => "CREATE TYPE",
        Tag::CreateCast => "CREATE CAST",
        Tag::CreateFunction => "CREATE FUNCTION",
        Tag::DropFunction => "DROP FUNCTION",
        Tag::Do => "DO",
        Tag::GrantRole => "GRANT ROLE",
        Tag::RevokeRole => "REVOKE ROLE",
        Tag::SetVariable => "SET",
        Tag::Reset => "RESET",
        Tag::SetConstraints => "SET CONSTRAINTS",
        Tag::Show => "SHOW",
        Tag::AlterTable => "ALTER TABLE",
        Tag::DeclareCursor => "DECLARE CURSOR",
        Tag::CloseCursor => "CLOSE CURSOR",
        Tag::Declare => "DECLARE",
        Tag::Fetch => "FETCH",
        Tag::Move => "MOVE",
        Tag::Close => "CLOSE",
    }
}

pub open spec fn type_text(t: DataType) -> Seq<char> {
    match t {
        DataType::Int => "INT"@,
        DataType::BigInt => "BIGINT"@,
        DataType::Boolean => "BOOLEAN"@,
        DataType::Text => "TEXT"@,
    }
}

/// The name of a type.
pub fn name_of_type(t: DataType) -> (r: &'static str)
    ensures
        r@ == type_text(t),
{
    match t {
        DataType::Int => "INT",
        DataType::BigInt => "BIGINT",
        DataType::Boolean => "BOOLEAN",
        DataType::Text => "TEXT",
    }
}

pub open spec fn fault_state(f: Fault) -> SqlState {
    match f {
        Fault::UnexpectedCharacter => SqlState::SyntaxError,
        Fault::UnterminatedQuote => SqlState::SyntaxError,
        Fault::UnterminatedComment => SqlState::SyntaxError,
        Fault::NumberTooLarge => SqlState::NumericValueOutOfRange,
        Fault::Syntax { .. } => SqlState::SyntaxError,
        Fault::TooDeep => SqlState::ProgramLimitExceeded,
        Fault::DecimalNumber => SqlState::FeatureNotSupported,
        Fault::GrantOption => SqlState::FeatureNotSupported,
        Fault::Parameter => SqlState::UndefinedParameter,
        Fault::UndefinedTable { .. } => SqlState::UndefinedTable,
        Fault::UndefinedColumn { .. } => SqlState::UndefinedColumn,
        Fault::UndefinedFunction { .. } => SqlState::UndefinedFunction,
        Fault::AmbiguousColumn { .. } => SqlState::AmbiguousColumn,
        Fault::DuplicateTable { .. } => SqlState::DuplicateTable,
        Fault::DuplicateColumn { .. } => SqlState::DuplicateColumn,
        Fault::DuplicateSchema { .. } => SqlState::DuplicateSchema,
        Fault::SchemaInUse { .. } => SqlState::DependentObjectsStillExist,
        Fault::SchemaMismatch { .. } => SqlState::InvalidSchemaName,
        Fault::UndefinedSchema { .. } => SqlState::InvalidSchemaName,
        Fault::UndefinedSequence { .. } => SqlState::UndefinedObject,
        Fault::OperatorMissing => SqlState::UndefinedFunction,
        Fault::NotBoolean => SqlState::DatatypeMismatch,
        Fault::ColumnMismatch { .. } => SqlState::DatatypeMismatch,
        Fault::TypesDiffer => SqlState::DatatypeMismatch,
        Fault::UngroupedColumn { .. } => SqlState::GroupingError,
        Fault::MisplacedAggregate => SqlState::GroupingError,
        Fault::MisplacedWindow => SqlState::FeatureNotSupported,
        Fault::ConflictTarget { .. } => SqlState::InvalidColumnReference,
        Fault::ChangedTwice => SqlState::CardinalityViolation,
        Fault::MisplacedDraw => SqlState::FeatureNotSupported,
        Fault::SequenceLimit { .. } => SqlState::SequenceGeneratorLimitExceeded,
        Fault::MoreThanOneRow => SqlState::CardinalityViolation,
        Fault::SubqueryWidth => SqlState::SyntaxError,
        Fault::SetOperationWidth => SqlState::SyntaxError,
        Fault::ValuesWidth => SqlState::SyntaxError,
        Fault::OrderPosition => SqlState::SyntaxError,
        Fault::InsertWidth => SqlState::SyntaxError,
        Fault::MisplacedDefault => SqlState::SyntaxError,
        Fault::DivisionByZero => SqlState::DivisionByZero,
        Fault::OutOfRange => SqlState::NumericValueOutOfRange,
        Fault::NegativeLength => SqlState::InvalidParameterValue,
        Fault::Unentered { .. } => SqlState::InternalError,
        Fault::InvalidNumber { .. } => SqlState::InvalidTextRepresentation,
        Fault::TooLong { .. } => SqlState::StringDataRightTruncation,
        Fault::TooLongFixed { .. } => SqlState::StringDataRightTruncation,
        Fault::NullViolation { .. } => SqlState::NotNullViolation,
        Fault::UniqueViolation { .. } => SqlState::UniqueViolation,
        Fault::NoTransaction { .. } => SqlState::NoActiveSqlTransaction,
        Fault::NoSavepoint { .. } => SqlState::InvalidSavepointSpecification,
        Fault::Aborted => SqlState::InFailedSqlTransaction,
        Fault::ReadOnly { .. } => SqlState::ObjectNotInPrerequisiteState,
        Fault::Conflict => SqlState::SerializationFailure,
        Fault::RoleExists { .. } => SqlState::DuplicateObject,
        Fault::RoleCycle { .. } => SqlState::InvalidGrantOperation,
        Fault::NotMember { .. } => SqlState::InsufficientPrivilege,
        Fault::TypeExists { .. } => SqlState::DuplicateObject,
        Fault::TypeMissing { .. } => SqlState::UndefinedObject,
        Fault::CastExists { .. } => SqlState::DuplicateObject,
        Fault::FunctionExists { .. } => SqlState::DuplicateFunction,
        Fault::FunctionInUse { .. } => SqlState::DependentObjectsStillExist,
        Fault::UnknownVariable { .. } => SqlState::UndefinedObject,
        Fault::UndefinedPrepared { .. } => SqlState::UndefinedObject,
        Fault::RoleMissing { .. } => SqlState::UndefinedObject,
        Fault::Denied { .. } => SqlState::InsufficientPrivilege,
        Fault::NotSuperuser => SqlState::InsufficientPrivilege,
        Fault::InvalidSetting { .. } => SqlState::InvalidParameterValue,
        Fault::InvalidSettingNumber { .. } => SqlState::InvalidParameterValue,
        Fault::ModeSetting { .. } => SqlState::FeatureNotSupported,
        Fault::UndefinedSetting { .. } => SqlState::UndefinedObject,
        Fault::Malformed { .. } => SqlState::FeatureNotSupported,
        Fault::CursorWithoutRows => SqlState::FeatureNotSupported,
        Fault::NoCursor { .. } => SqlState::InvalidCursorName,
        Fault::CursorExists { .. } => SqlState::DuplicateCursor,
        Fault::TooManyStatements => SqlState::ProgramLimitExceeded,
        Fault::TooManyPortals => SqlState::ProgramLimitExceeded,
        Fault::StatementExists { .. } => SqlState::DuplicateObject,
        Fault::UnknownStatement { .. } => SqlState::UndefinedObject,
        Fault::UnknownPortal { .. } => SqlState::UndefinedObject,
        Fault::PortalFinished { .. } => SqlState::ObjectNotInPrerequisiteState,
        Fault::NotOneStatement => SqlState::SyntaxError,
        Fault::ParameterCount { .. } => SqlState::InvalidParameterValue,
        Fault::ParameterType { .. } => SqlState::DatatypeMismatch,
        Fault::TooManyParameters => SqlState::ProgramLimitExceeded,
        Fault::UnknownSession => SqlState::ConnectionDoesNotExist,
        Fault::IdentifiersExhausted => SqlState::ProgramLimitExceeded,
        Fault::StorageSavepointMissing => SqlState::InternalError,
        Fault::CatalogCreateRefused => SqlState::InternalError,
        Fault::CatalogRollbackRefused => SqlState::InternalError,
        Fault::CatalogReleaseRefused => SqlState::InternalError,
        Fault::PasswordTooShort { .. } => SqlState::InvalidAuthorizationSpecification,
        Fault::PasswordIsRoleName => SqlState::InvalidAuthorizationSpecification,
        Fault::PasswordNeedsLowercase => SqlState::InvalidAuthorizationSpecification,
        Fault::PasswordNeedsUppercase => SqlState::InvalidAuthorizationSpecification,
        Fault::PasswordNeedsDigit => SqlState::InvalidAuthorizationSpecification,
        Fault::PasswordNeedsSymbol => SqlState::InvalidAuthorizationSpecification,
        Fault::TooManyFailures => SqlState::TooManyAuthenticationFailures,
        Fault::TlsRequired => SqlState::InvalidAuthorizationSpecification,
        Fault::LoginRefused => SqlState::InvalidAuthorizationSpecification,
        Fault::LoginNotPermitted { .. } => SqlState::InvalidAuthorizationSpecification,
        Fault::LoginWithoutRole { .. } => SqlState::InvalidAuthorizationSpecification,
        Fault::LoginWithoutPassword { .. } => SqlState::InvalidAuthorizationSpecification,
    }
}

/// The condition that a fault belongs to.
pub fn state_of(f: Fault) -> (r: SqlState)
    ensures
        r == fault_state(f),
{
    match f {
        Fault::UnexpectedCharacter => SqlState::SyntaxError,
        Fault::UnterminatedQuote => SqlState::SyntaxError,
        Fault::UnterminatedComment => SqlState::SyntaxError,
        Fault::NumberTooLarge => SqlState::NumericValueOutOfRange,
        Fault::Syntax { .. } => SqlState::SyntaxError,
        Fault::TooDeep => SqlState::ProgramLimitExceeded,
        Fault::DecimalNumber => SqlState::FeatureNotSupported,
        Fault::GrantOption => SqlState::FeatureNotSupported,
        Fault::Parameter => SqlState::UndefinedParameter,
        Fault::UndefinedTable { .. } => SqlState::UndefinedTable,
        Fault::UndefinedColumn { .. } => SqlState::UndefinedColumn,
        Fault::UndefinedFunction { .. } => SqlState::UndefinedFunction,
        Fault::AmbiguousColumn { .. } => SqlState::AmbiguousColumn,
        Fault::DuplicateTable { .. } => SqlState::DuplicateTable,
        Fault::DuplicateColumn { .. } => SqlState::DuplicateColumn,
        Fault::DuplicateSchema { .. } => SqlState::DuplicateSchema,
        Fault::SchemaInUse { .. } => SqlState::DependentObjectsStillExist,
        Fault::SchemaMismatch { .. } => SqlState::InvalidSchemaName,
        Fault::UndefinedSchema { .. } => SqlState::InvalidSchemaName,
        Fault::UndefinedSequence { .. } => SqlState::UndefinedObject,
        Fault::OperatorMissing => SqlState::UndefinedFunction,
        Fault::NotBoolean => SqlState::DatatypeMismatch,
        Fault::ColumnMismatch { .. } => SqlState::DatatypeMismatch,
        Fault::TypesDiffer => SqlState::DatatypeMismatch,
        Fault::UngroupedColumn { .. } => SqlState::GroupingError,
        Fault::MisplacedAggregate => SqlState::GroupingError,
        Fault::MisplacedWindow => SqlState::FeatureNotSupported,
        Fault::ConflictTarget { .. } => SqlState::InvalidColumnReference,
        Fault::ChangedTwice => SqlState::CardinalityViolation,
        Fault::MisplacedDraw => SqlState::FeatureNotSupported,
        Fault::SequenceLimit { .. } => SqlState::SequenceGeneratorLimitExceeded,
        Fault::MoreThanOneRow => SqlState::CardinalityViolation,
        Fault::SubqueryWidth => SqlState::SyntaxError,
        Fault::SetOperationWidth => SqlState::SyntaxError,
        Fault::ValuesWidth => SqlState::SyntaxError,
        Fault::OrderPosition => SqlState::SyntaxError,
        Fault::InsertWidth => SqlState::SyntaxError,
        Fault::MisplacedDefault => SqlState::SyntaxError,
        Fault::DivisionByZero => SqlState::DivisionByZero,
        Fault::OutOfRange => SqlState::NumericValueOutOfRange,
        Fault::NegativeLength => SqlState::InvalidParameterValue,
        Fault::Unentered { .. } => SqlState::InternalError,
        Fault::InvalidNumber { .. } => SqlState::InvalidTextRepresentation,
        Fault::TooLong { .. } => SqlState::StringDataRightTruncation,
        Fault::TooLongFixed { .. } => SqlState::StringDataRightTruncation,
        Fault::NullViolation { .. } => SqlState::NotNullViolation,
        Fault::UniqueViolation { .. } => SqlState::UniqueViolation,
        Fault::NoTransaction { .. } => SqlState::NoActiveSqlTransaction,
        Fault::NoSavepoint { .. } => SqlState::InvalidSavepointSpecification,
        Fault::Aborted => SqlState::InFailedSqlTransaction,
        Fault::ReadOnly { .. } => SqlState::ObjectNotInPrerequisiteState,
        Fault::Conflict => SqlState::SerializationFailure,
        Fault::RoleExists { .. } => SqlState::DuplicateObject,
        Fault::RoleCycle { .. } => SqlState::InvalidGrantOperation,
        Fault::NotMember { .. } => SqlState::InsufficientPrivilege,
        Fault::TypeExists { .. } => SqlState::DuplicateObject,
        Fault::TypeMissing { .. } => SqlState::UndefinedObject,
        Fault::CastExists { .. } => SqlState::DuplicateObject,
        Fault::FunctionExists { .. } => SqlState::DuplicateFunction,
        Fault::FunctionInUse { .. } => SqlState::DependentObjectsStillExist,
        Fault::UnknownVariable { .. } => SqlState::UndefinedObject,
        Fault::UndefinedPrepared { .. } => SqlState::UndefinedObject,
        Fault::RoleMissing { .. } => SqlState::UndefinedObject,
        Fault::Denied { .. } => SqlState::InsufficientPrivilege,
        Fault::NotSuperuser => SqlState::InsufficientPrivilege,
        Fault::InvalidSetting { .. } => SqlState::InvalidParameterValue,
        Fault::InvalidSettingNumber { .. } => SqlState::InvalidParameterValue,
        Fault::ModeSetting { .. } => SqlState::FeatureNotSupported,
        Fault::UndefinedSetting { .. } => SqlState::UndefinedObject,
        Fault::Malformed { .. } => SqlState::FeatureNotSupported,
        Fault::CursorWithoutRows => SqlState::FeatureNotSupported,
        Fault::NoCursor { .. } => SqlState::InvalidCursorName,
        Fault::CursorExists { .. } => SqlState::DuplicateCursor,
        Fault::TooManyStatements => SqlState::ProgramLimitExceeded,
        Fault::TooManyPortals => SqlState::ProgramLimitExceeded,
        Fault::StatementExists { .. } => SqlState::DuplicateObject,
        Fault::UnknownStatement { .. } => SqlState::UndefinedObject,
        Fault::UnknownPortal { .. } => SqlState::UndefinedObject,
        Fault::PortalFinished { .. } => SqlState::ObjectNotInPrerequisiteState,
        Fault::NotOneStatement => SqlState::SyntaxError,
        Fault::ParameterCount { .. } => SqlState::InvalidParameterValue,
        Fault::ParameterType { .. } => SqlState::DatatypeMismatch,
        Fault::TooManyParameters => SqlState::ProgramLimitExceeded,
        Fault::UnknownSession => SqlState::ConnectionDoesNotExist,
        Fault::IdentifiersExhausted => SqlState::ProgramLimitExceeded,
        Fault::StorageSavepointMissing => SqlState::InternalError,
        Fault::CatalogCreateRefused => SqlState::InternalError,
        Fault::CatalogRollbackRefused => SqlState::InternalError,
        Fault::CatalogReleaseRefused => SqlState::InternalError,
        Fault::PasswordTooShort { .. } => SqlState::InvalidAuthorizationSpecification,
        Fault::PasswordIsRoleName => SqlState::InvalidAuthorizationSpecification,
        Fault::PasswordNeedsLowercase => SqlState::InvalidAuthorizationSpecification,
        Fault::PasswordNeedsUppercase => SqlState::InvalidAuthorizationSpecification,
        Fault::PasswordNeedsDigit => SqlState::InvalidAuthorizationSpecification,
        Fault::PasswordNeedsSymbol => SqlState::InvalidAuthorizationSpecification,
        Fault::TooManyFailures => SqlState::TooManyAuthenticationFailures,
        Fault::TlsRequired => SqlState::InvalidAuthorizationSpecification,
        Fault::LoginRefused => SqlState::InvalidAuthorizationSpecification,
        Fault::LoginNotPermitted { .. } => SqlState::InvalidAuthorizationSpecification,
        Fault::LoginWithoutRole { .. } => SqlState::InvalidAuthorizationSpecification,
        Fault::LoginWithoutPassword { .. } => SqlState::InvalidAuthorizationSpecification,
    }
}

/// A name in quotation marks.
pub open spec fn quoted(t: Seq<Seq<char>>, name: usize) -> Seq<char> {
    seq!['"'] + symbols::text_at(t, name) + seq!['"']
}

/// A name in quotation marks, behind its qualifier and a dot if it has one.
pub open spec fn quoted_path(t: Seq<Seq<char>>, qualifier: Option<usize>, name: usize) -> Seq<char> {
    match qualifier {
        None => quoted(t, name),
        Some(q) => seq!['"'] + symbols::text_at(t, q) + seq!['.'] + symbols::text_at(t, name)
            + seq!['"'],
    }
}

/// The message of a fault.
pub open spec fn fault_message(t: Seq<Seq<char>>, f: Fault) -> Seq<char> {
    match f {
        Fault::UnexpectedCharacter => "syntax error at an unexpected character"@,
        Fault::UnterminatedQuote => "unterminated quoted text"@,
        Fault::UnterminatedComment => "unterminated comment"@,
        Fault::NumberTooLarge => "number is out of range"@,
        Fault::Syntax { at } => "syntax error at token "@ + text::decimal(at as nat),
        Fault::TooDeep => "statement is nested too deeply"@,
        Fault::DecimalNumber => "decimal numbers are not supported"@,
        Fault::GrantOption => "REVOKE GRANT OPTION FOR is not supported"@,
        Fault::Parameter => "parameterized statements must be prepared before execution"@,
        Fault::UndefinedTable { schema, name } =>
            "relation "@ + quoted_path(t, schema, name) + " does not exist"@,
        Fault::UndefinedColumn { table, name } =>
            "column "@ + quoted_path(t, table, name) + " does not exist"@,
        Fault::UndefinedFunction { name } => "function "@ + quoted(t, name) + " does not exist"@,
        Fault::AmbiguousColumn { name } =>
            "column reference "@ + quoted(t, name) + " is ambiguous"@,
        Fault::DuplicateTable { name } => "relation "@ + quoted(t, name) + " already exists"@,
        Fault::DuplicateColumn { name } =>
            "column "@ + quoted(t, name) + " specified more than once"@,
        Fault::DuplicateSchema { name } => "schema "@ + quoted(t, name) + " already exists"@,
        Fault::SchemaInUse { name } =>
            "cannot drop schema "@ + quoted(t, name) + " because other objects depend on it"@,
        Fault::SchemaMismatch { stated, made } =>
            "CREATE specifies a schema ("@ + symbols::text_at(t, stated) + ") different from the one being created ("@ + symbols::text_at(t, made) + ")"@,
        Fault::UndefinedSchema { name } => "schema "@ + quoted(t, name) + " does not exist"@,
        Fault::UndefinedSequence { name } => "sequence "@ + quoted(t, name) + " does not exist"@,
        Fault::OperatorMissing => "operator does not exist for the types of its operands"@,
        Fault::NotBoolean => "argument of a condition must be type boolean"@,
        Fault::ColumnMismatch { name } =>
            "column "@ + quoted(t, name) + " is of another type than its expression"@,
        Fault::TypesDiffer => "types of the alternatives cannot be matched"@,
        Fault::UngroupedColumn { table, name } =>
            "column "@ + quoted_path(t, table, name) + " must appear in the GROUP BY clause or be used in an aggregate function"@,
        Fault::MisplacedAggregate => "aggregate functions are not allowed here"@,
        Fault::MisplacedWindow => "window functions are not allowed here"@,
        Fault::ConflictTarget { name } =>
            "there is no unique constraint on column "@ + quoted(t, name) + " for ON CONFLICT"@,
        Fault::ChangedTwice => "ON CONFLICT DO UPDATE command cannot affect row a second time"@,
        Fault::MisplacedDraw => "nextval is only supported as a whole value"@,
        Fault::SequenceLimit { name } => "reached maximum value of sequence "@ + quoted(t, name),
        Fault::MoreThanOneRow => "more than one row returned by a subquery used as an expression"@,
        Fault::SubqueryWidth => "subquery must return only one column"@,
        Fault::SetOperationWidth =>
            "each query of a set operation must have the same number of columns"@,
        Fault::ValuesWidth => "VALUES lists must all be the same length"@,
        Fault::OrderPosition => "ORDER BY position is not in the select list"@,
        Fault::InsertWidth => "INSERT does not have as many expressions as target columns"@,
        Fault::MisplacedDefault => "DEFAULT is not allowed in this context"@,
        Fault::DivisionByZero => "division by zero"@,
        Fault::OutOfRange => "integer out of range"@,
        Fault::NegativeLength => "negative substring length not allowed"@,
        Fault::Unentered { text } => "a text is not entered"@,
        Fault::InvalidNumber { value } => "invalid input syntax for a number: "@ + quoted(t, value),
        Fault::TooLong { length } =>
            "value too long for type character varying("@ + text::decimal(length as nat) + ")"@,
        Fault::TooLongFixed { length } =>
            "value too long for type character("@ + text::decimal(length as nat) + ")"@,
        Fault::NullViolation { name } =>
            "null value in column "@ + quoted(t, name) + " violates not-null constraint"@,
        Fault::UniqueViolation { name } =>
            "duplicate key value violates unique constraint on column "@ + quoted(t, name),
        Fault::NoTransaction { tag } => tag_text(tag) + " can only be used in transaction blocks"@,
        Fault::NoSavepoint { name } => "savepoint "@ + quoted(t, name) + " does not exist"@,
        Fault::Aborted =>
            "current transaction is aborted, commands ignored until end of transaction block"@,
        Fault::ReadOnly { tag } =>
            "cannot execute "@ + tag_text(tag) + " in a read-only transaction"@,
        Fault::Conflict => "could not serialize access due to a concurrent update"@,
        Fault::RoleExists { name } => "role "@ + quoted(t, name) + " already exists"@,
        Fault::RoleCycle { role, member } =>
            "role "@ + quoted(t, role) + " is a member of role "@ + quoted(t, member),
        Fault::NotMember { role, member, grantor } =>
            "role "@ + quoted(t, member) + " has not been granted membership in role "@ + quoted(t, role) + " by role "@ + quoted(t, grantor),
        Fault::TypeExists { name } => "type "@ + quoted(t, name) + " already exists"@,
        Fault::TypeMissing { name } => "type "@ + quoted(t, name) + " does not exist"@,
        Fault::CastExists { source, target } =>
            "cast from type "@ + symbols::text_at(t, source) + " to type "@ + symbols::text_at(t, target) + " already exists"@,
        Fault::FunctionExists { name } =>
            "function "@ + quoted(t, name) + " already exists with same argument types"@,
        Fault::FunctionInUse { name } =>
            "cannot drop function "@ + quoted(t, name) + " because other objects depend on it"@,
        Fault::UnknownVariable { name } => "unknown DO variable: "@ + quoted(t, name),
        Fault::UndefinedPrepared { name } =>
            "prepared transaction with identifier "@ + quoted(t, name) + " does not exist"@,
        Fault::RoleMissing { name } => "role "@ + quoted(t, name) + " does not exist"@,
        Fault::Denied { name } => "permission denied for relation "@ + quoted(t, name),
        Fault::NotSuperuser => "permission denied: must be superuser"@,
        Fault::InvalidSetting { name, value } =>
            "invalid value for "@ + symbols::text_at(t, name) + ": "@ + quoted(t, value),
        Fault::InvalidSettingNumber { name, number } =>
            "invalid value for "@ + symbols::text_at(t, name) + ": "@ + text::decimal(number as nat),
        Fault::ModeSetting { name } =>
            "parameter "@ + quoted(t, name) + " is set by SET TRANSACTION only"@,
        Fault::UndefinedSetting { name } =>
            "unrecognized configuration parameter "@ + quoted(t, name),
        Fault::Malformed { tag } => "unsupported compatibility command: "@ + tag_text(tag),
        Fault::CursorWithoutRows => "DECLARE CURSOR only supports row-returning statements"@,
        Fault::NoCursor { name } => "cursor "@ + quoted(t, name) + " does not exist"@,
        Fault::CursorExists { name } => "cursor "@ + quoted(t, name) + " already exists"@,
        Fault::TooManyStatements => "maximum number of prepared statements reached"@,
        Fault::TooManyPortals => "maximum number of portals reached"@,
        Fault::StatementExists { name } =>
            "prepared statement "@ + quoted(t, name) + " already exists"@,
        Fault::UnknownStatement { name } => "unknown prepared statement "@ + quoted(t, name),
        Fault::UnknownPortal { name } => "unknown portal "@ + quoted(t, name),
        Fault::PortalFinished { name } => "portal "@ + quoted(t, name) + " cannot be run again"@,
        Fault::NotOneStatement => "a prepared statement must be a single statement"@,
        Fault::ParameterCount { needed, given } =>
            "prepared statement needs "@ + text::decimal(needed as nat) + " parameters, but was given "@ + text::decimal(given as nat),
        Fault::ParameterType { number, ty } =>
            "parameter "@ + text::decimal(number as nat) + " expects "@ + type_text(ty),
        Fault::TooManyParameters => "too many parameters"@,
        Fault::UnknownSession => "unknown session"@,
        Fault::IdentifiersExhausted => "no more transaction identifiers are left"@,
        Fault::StorageSavepointMissing => "savepoint does not exist in storage"@,
        Fault::CatalogCreateRefused => "forced catalog savepoint create failure"@,
        Fault::CatalogRollbackRefused => "forced catalog savepoint rollback failure"@,
        Fault::CatalogReleaseRefused => "forced catalog savepoint release failure"@,
        Fault::PasswordTooShort { least } =>
            "password must have at least "@ + text::decimal(least as nat) + " characters"@,
        Fault::PasswordIsRoleName => "password must not match role name"@,
        Fault::PasswordNeedsLowercase => "password must have at least one lowercase letter"@,
        Fault::PasswordNeedsUppercase => "password must have at least one uppercase letter"@,
        Fault::PasswordNeedsDigit => "password must have at least one digit"@,
        Fault::PasswordNeedsSymbol => "password must have at least one symbol"@,
        Fault::TooManyFailures => "too many authentication failures"@,
        Fault::TlsRequired => "TLS is required for password authentication"@,
        Fault::LoginRefused => "invalid user name or password"@,
        Fault::LoginNotPermitted { name } =>
            "role "@ + quoted(t, name) + " is not permitted to log in"@,
        Fault::LoginWithoutRole { name } => "role "@ + quoted(t, name) + " does not exist"@,
        Fault::LoginWithoutPassword { name } =>
            "role "@ + quoted(t, name) + " does not have a password configured"@,
    }
}

pub fn push_quoted(m: &mut String, t: &Symbols, name: usize)
    ensures
        final(m)@ == old(m)@ + quoted(t@, name),
{
    let ghost before = m@;
    m.push('"');
    m.append(t.text(name).as_str());
    m.push('"');
    assert(m@ =~= before + quoted(t@, name));
}

fn push_path(m: &mut String, t: &Symbols, qualifier: Option<usize>, name: usize)
    ensures
        final(m)@ == old(m)@ + quoted_path(t@, qualifier, name),
{
    match qualifier {
        None => {
            push_quoted(m, t, name);
        },
        Some(q) => {
            let ghost before = m@;
            m.push('"');
            m.append(t.text(q).as_str());
            m.push('.');
            m.append(t.text(name).as_str());
            m.push('"');
            assert(m@ =~= before + quoted_path(t@, qualifier, name));
        },
    }
}

/// The message of a fault.
pub fn message_of(t: &Symbols, f: Fault) -> (r: String)
    ensures
        r@ == fault_message(t@, f),
{
    let mut m: String = String::new();
    match f {
        Fault::UnexpectedCharacter => {
            m.append("syntax error at an unexpected character");
        },
        Fault::UnterminatedQuote => {
            m.append("unterminated quoted text");
        },
        Fault::UnterminatedComment => {
            m.append("unterminated comment");
        },
        Fault::NumberTooLarge => {
            m.append("number is out of range");
        },
        Fault::Syntax { at } => {
            m.append("syntax error at token ");
            text::push_decimal(&mut m, at as u64);
        },
        Fault::TooDeep => {
            m.append("statement is nested too deeply");
        },
        Fault::DecimalNumber => {
            m.append("decimal numbers are not supported");
        },
        Fault::GrantOption => {
            m.append("REVOKE GRANT OPTION FOR is not supported");
        },
        Fault::Parameter => {
            m.append("parameterized statements must be prepared before execution");
        },
        Fault::UndefinedTable { schema, name } => {
            m.append("relation ");
            push_path(&mut m, t, schema, name);
            m.append(" does not exist");
        },
        Fault::UndefinedColumn { table, name } => {
            m.append("column ");
            push_path(&mut m, t, table, name);
            m.append(" does not exist");
        },
        Fault::UndefinedFunction { name } => {
            m.append("function ");
            push_quoted(&mut m, t, name);
            m.append(" does not exist");
        },
        Fault::AmbiguousColumn { name } => {
            m.append("column reference ");
            push_quoted(&mut m, t, name);
            m.append(" is ambiguous");
        },
        Fault::DuplicateTable { name } => {
            m.append("relation ");
            push_quoted(&mut m, t, name);
            m.append(" already exists");
        },
        Fault::DuplicateColumn { name } => {
            m.append("column ");
            push_quoted(&mut m, t, name);
            m.append(" specified more than once");
        },
        Fault::DuplicateSchema { name } => {
            m.append("schema ");
            push_quoted(&mut m, t, name);
            m.append(" already exists");
        },
        Fault::SchemaInUse { name } => {
            m.append("cannot drop schema ");
            push_quoted(&mut m, t, name);
            m.append(" because other objects depend on it");
        },
        Fault::SchemaMismatch { stated, made } => {
            m.append("CREATE specifies a schema (");
            m.append(t.text(stated).as_str());
            m.append(") different from the one being created (");
            m.append(t.text(made).as_str());
            m.append(")");
        },
        Fault::UndefinedSchema { name } => {
            m.append("schema ");
            push_quoted(&mut m, t, name);
            m.append(" does not exist");
        },
        Fault::UndefinedSequence { name } => {
            m.append("sequence ");
            push_quoted(&mut m, t, name);
            m.append(" does not exist");
        },
        Fault::OperatorMissing => {
            m.append("operator does not exist for the types of its operands");
        },
        Fault::NotBoolean => {
            m.append("argument of a condition must be type boolean");
        },
        Fault::ColumnMismatch { name } => {
            m.append("column ");
            push_quoted(&mut m, t, name);
            m.append(" is of another type than its expression");
        },
        Fault::TypesDiffer => {
            m.append("types of the alternatives cannot be matched");
        },
        Fault::UngroupedColumn { table, name } => {
            m.append("column ");
            push_path(&mut m, t, table, name);
            m.append(" must appear in the GROUP BY clause or be used in an aggregate function");
        },
        Fault::MisplacedAggregate => {
            m.append("aggregate functions are not allowed here");
        },
        Fault::MisplacedWindow => {
            m.append("window functions are not allowed here");
        },
        Fault::ConflictTarget { name } => {
            m.append("there is no unique constraint on column ");
            push_quoted(&mut m, t, name);
            m.append(" for ON CONFLICT");
        },
        Fault::ChangedTwice => {
            m.append("ON CONFLICT DO UPDATE command cannot affect row a second time");
        },
        Fault::MisplacedDraw => {
            m.append("nextval is only supported as a whole value");
        },
        Fault::SequenceLimit { name } => {
            m.append("reached maximum value of sequence ");
            push_quoted(&mut m, t, name);
        },
        Fault::MoreThanOneRow => {
            m.append("more than one row returned by a subquery used as an expression");
        },
        Fault::SubqueryWidth => {
            m.append("subquery must return only one column");
        },
        Fault::SetOperationWidth => {
            m.append("each query of a set operation must have the same number of columns");
        },
        Fault::ValuesWidth => {
            m.append("VALUES lists must all be the same length");
        },
        Fault::OrderPosition => {
            m.append("ORDER BY position is not in the select list");
        },
        Fault::InsertWidth => {
            m.append("INSERT does not have as many expressions as target columns");
        },
        Fault::MisplacedDefault => {
            m.append("DEFAULT is not allowed in this context");
        },
        Fault::DivisionByZero => {
            m.append("division by zero");
        },
        Fault::OutOfRange => {
            m.append("integer out of range");
        },
        Fault::NegativeLength => {
            m.append("negative substring length not allowed");
        },
        Fault::Unentered { text } => {
            m.append("a text is not entered");
        },
        Fault::InvalidNumber { value } => {
            m.append("invalid input syntax for a number: ");
            push_quoted(&mut m, t, value);
        },
        Fault::TooLong { length } => {
            m.append("value too long for type character varying(");
            text::push_decimal(&mut m, length as u64);
            m.append(")");
        },
        Fault::TooLongFixed { length } => {
            m.append("value too long for type character(");
            text::push_decimal(&mut m, length as u64);
            m.append(")");
        },
        Fault::NullViolation { name } => {
            m.append("null value in column ");
            push_quoted(&mut m, t, name);
            m.append(" violates not-null constraint");
        },
        Fault::UniqueViolation { name } => {
            m.append("duplicate key value violates unique constraint on column ");
            push_quoted(&mut m, t, name);
        },
        Fault::NoTransaction { tag } => {
            m.append(tag_name(tag));
            m.append(" can only be used in transaction blocks");
        },
        Fault::NoSavepoint { name } => {
            m.append("savepoint ");
            push_quoted(&mut m, t, name);
            m.append(" does not exist");
        },
        Fault::Aborted => {
            m.append("current transaction is aborted, commands ignored until end of transaction block");
        },
        Fault::ReadOnly { tag } => {
            m.append("cannot execute ");
            m.append(tag_name(tag));
            m.append(" in a read-only transaction");
        },
        Fault::Conflict => {
            m.append("could not serialize access due to a concurrent update");
        },
        Fault::RoleExists { name } => {
            m.append("role ");
            push_quoted(&mut m, t, name);
            m.append(" already exists");
        },
        Fault::RoleCycle { role, member } => {
            m.append("role ");
            push_quoted(&mut m, t, role);
            m.append(" is a member of role ");
            push_quoted(&mut m, t, member);
        },
        Fault::NotMember { role, member, grantor } => {
            m.append("role ");
            push_quoted(&mut m, t, member);
            m.append(" has not been granted membership in role ");
            push_quoted(&mut m, t, role);
            m.append(" by role ");
            push_quoted(&mut m, t, grantor);
        },
        Fault::TypeExists { name } => {
            m.append("type ");
            push_quoted(&mut m, t, name);
            m.append(" already exists");
        },
        Fault::TypeMissing { name } => {
            m.append("type ");
            push_quoted(&mut m, t, name);
            m.append(" does not exist");
        },
        Fault::CastExists { source, target } => {
            m.append("cast from type ");
            m.append(t.text(source).as_str());
            m.append(" to type ");
            m.append(t.text(target).as_str());
            m.append(" already exists");
        },
        Fault::FunctionExists { name } => {
            m.append("function ");
            push_quoted(&mut m, t, name);
            m.append(" already exists with same argument types");
        },
        Fault::FunctionInUse { name } => {
            m.append("cannot drop function ");
            push_quoted(&mut m, t, name);
            m.append(" because other objects depend on it");
        },
        Fault::UnknownVariable { name } => {
            m.append("unknown DO variable: ");
            push_quoted(&mut m, t, name);
        },
        Fault::UndefinedPrepared { name } => {
            m.append("prepared transaction with identifier ");
            push_quoted(&mut m, t, name);
            m.append(" does not exist");
        },
        Fault::RoleMissing { name } => {
            m.append("role ");
            push_quoted(&mut m, t, name);
            m.append(" does not exist");
        },
        Fault::Denied { name } => {
            m.append("permission denied for relation ");
            push_quoted(&mut m, t, name);
        },
        Fault::NotSuperuser => {
            m.append("permission denied: must be superuser");
        },
        Fault::InvalidSetting { name, value } => {
            m.append("invalid value for ");
            m.append(t.text(name).as_str());
            m.append(": ");
            push_quoted(&mut m, t, value);
        },
        Fault::InvalidSettingNumber { name, number } => {
            m.append("invalid value for ");
            m.append(t.text(name).as_str());
            m.append(": ");
            text::push_decimal(&mut m, number as u64);
        },
        Fault::ModeSetting { name } => {
            m.append("parameter ");
            push_quoted(&mut m, t, name);
            m.append(" is set by SET TRANSACTION only");
        },
        Fault::UndefinedSetting { name } => {
            m.append("unrecognized configuration parameter ");
            push_quoted(&mut m, t, name);
        },
        Fault::Malformed { tag } => {
            m.append("unsupported compatibility command: ");
            m.append(tag_name(tag));
        },
        Fault::CursorWithoutRows => {
            m.append("DECLARE CURSOR only supports row-returning statements");
        },
        Fault::NoCursor { name } => {
            m.append("cursor ");
            push_quoted(&mut m, t, name);
            m.append(" does not exist");
        },
        Fault::CursorExists { name } => {
            m.append("cursor ");
            push_quoted(&mut m, t, name);
            m.append(" already exists");
        },
        Fault::TooManyStatements => {
            m.append("maximum number of prepared statements reached");
        },
        Fault::TooManyPortals => {
            m.append("maximum number of portals reached");
        },
        Fault::StatementExists { name } => {
            m.append("prepared statement ");
            push_quoted(&mut m, t, name);
            m.append(" already exists");
        },
        Fault::UnknownStatement { name } => {
            m.append("unknown prepared statement ");
            push_quoted(&mut m, t, name);
        },
        Fault::UnknownPortal { name } => {
            m.append("unknown portal ");
            push_quoted(&mut m, t, name);
        },
        Fault::PortalFinished { name } => {
            m.append("portal ");
            push_quoted(&mut m, t, name);
            m.append(" cannot be run again");
        },
        Fault::NotOneStatement => {
            m.append("a prepared statement must be a single statement");
        },
        Fault::ParameterCount { needed, given } => {
            m.append("prepared statement needs ");
            text::push_decimal(&mut m, needed as u64);
            m.append(" parameters, but was given ");
            text::push_decimal(&mut m, given as u64);
        },
        Fault::ParameterType { number, ty } => {
            m.append("parameter ");
            text::push_decimal(&mut m, number as u64);
            m.append(" expects ");
            m.append(name_of_type(ty));
        },
        Fault::TooManyParameters => {
            m.append("too many parameters");
        },
        Fault::UnknownSession => {
            m.append("unknown session");
        },
        Fault::IdentifiersExhausted => {
            m.append("no more transaction identifiers are left");
        },
        Fault::StorageSavepointMissing => {
            m.append("savepoint does not exist in storage");
        },
        Fault::CatalogCreateRefused => {
            m.append("forced catalog savepoint create failure");
        },
        Fault::CatalogRollbackRefused => {
            m.append("forced catalog savepoint rollback failure");
        },
        Fault::CatalogReleaseRefused => {
            m.append("forced catalog savepoint release failure");
        },
        Fault::PasswordTooShort { least } => {
            m.append("password must have at least ");
            text::push_decimal(&mut m, least as u64);
            m.append(" characters");
        },
        Fault::PasswordIsRoleName => {
            m.append("password must not match role name");
        },
        Fault::PasswordNeedsLowercase => {
            m.append("password must have at least one lowercase letter");
        },
        Fault::PasswordNeedsUppercase => {
            m.append("password must have at least one uppercase letter");
        },
        Fault::PasswordNeedsDigit => {
            m.append("password must have at least one digit");
        },
        Fault::PasswordNeedsSymbol => {
            m.append("password must have at least one symbol");
        },
        Fault::TooManyFailures => {
            m.append("too many authentication failures");
        },
        Fault::TlsRequired => {
            m.append("TLS is required for password authentication");
        },
        Fault::LoginRefused => {
            m.append("invalid user name or password");
        },
        Fault::LoginNotPermitted { name } => {
            m.append("role ");
            push_quoted(&mut m, t, name);
            m.append(" is not permitted to log in");
        },
        Fault::LoginWithoutRole { name } => {
            m.append("role ");
            push_quoted(&mut m, t, name);
            m.append(" does not exist");
        },
        Fault::LoginWithoutPassword { name } => {
            m.append("role ");
            push_quoted(&mut m, t, name);
            m.append(" does not have a password configured");
        },
    }
    assert(m@ =~= fault_message(t@, f));
    m
}

/// An error as a client sees it.
#[derive(Debug)]
pub struct ErrorReport {
    pub message: String,
    pub client_detail: Option<String>,
    pub client_hint: Option<String>,
}

/// An error of the engine.
#[derive(Debug)]
pub struct DbError {
    state: SqlState,
    report: ErrorReport,
}

/// What an error says.
pub struct ErrorModel {
    pub state: SqlState,
    pub message: Seq<char>,
    pub detail: Option<Seq<char>>,
    pub hint: Option<Seq<char>>,
}

pub open spec fn opt_text(s: Option<String>) -> Option<Seq<char>> {
    match s {
        None => None,
        Some(x) => Some(x@),
    }
}

impl View for DbError {
    type V = ErrorModel;

    closed spec fn view(&self) -> ErrorModel {
        ErrorModel {
            state: self.state,
            message: self.report.message@,
            detail: opt_text(self.report.client_detail),
            hint: opt_text(self.report.client_hint),
        }
    }
}

/// How a fault is reported.
pub open spec fn reported(t: Seq<Seq<char>>, f: Fault, a: Aftermath) -> ErrorModel {
    ErrorModel {
        state: fault_state(f),
        message: fault_message(t, f),
        detail: match a {
            Aftermath::Nothing => None,
            Aftermath::TransactionRolledBack => Some(
                "transaction was rolled back because ROLLBACK TO SAVEPOINT could not be completed"@,
            ),
            Aftermath::PartlyReleased => Some(
                "savepoint release may already have partially succeeded"@,
            ),
        },
        hint: match a {
            Aftermath::PartlyReleased => Some(
                "ROLLBACK the transaction if you need a clean savepoint state"@,
            ),
            _ => None,
        },
    }
}

impl DbError {
    /// The report of a fault.
    pub fn from_fault(t: &Symbols, f: Fault, a: Aftermath) -> (r: DbError)
        ensures
            r@ == reported(t@, f, a),
    {
        let client_detail: Option<String> = match a {
            Aftermath::Nothing => None,
            Aftermath::TransactionRolledBack => Some(
                text::owned(
                    "transaction was rolled back because ROLLBACK TO SAVEPOINT could not be completed",
                ),
            ),
            Aftermath::PartlyReleased => Some(
                text::owned("savepoint release may already have partially succeeded"),
            ),
        };
        let client_hint: Option<String> = match a {
            Aftermath::PartlyReleased => Some(
                text::owned("ROLLBACK the transaction if you need a clean savepoint state"),
            ),
            _ => None,
        };
        DbError {
            state: state_of(f),
            report: ErrorReport { message: message_of(t, f), client_detail, client_hint },
        }
    }

    /// The condition that the error belongs to.
    pub fn sqlstate(&self) -> (r: SqlState)
        ensures
            r == self@.state,
    {
        self.state
    }

    /// The texts of the error.
    pub fn report(&self) -> (r: &ErrorReport)
        ensures
            r.message@ == self@.message,
            opt_text(r.client_detail) == self@.detail,
            opt_text(r.client_hint) == self@.hint,
    {
        &self.report
    }

    /// The message of the error.
    pub fn to_string(&self) -> (r: String)
        ensures
            r@ == self@.message,
    {
        text::owned(self.report.message.as_str())
    }
}

} // verus!
