//! Errors of the SQL layer.
use vstd::prelude::*;

verus! {

#[derive(Clone, Copy, Debug, PartialEq, Eq, Structural)]
pub enum SqlErrorKind {
    InvalidSql,
    Unsupported,
    InvalidCollection,
    UndefinedRole,
    DuplicateRole,
    UndefinedType,
    UndefinedFunction,
    ConstraintViolation,
    InvalidTransactionState,
    InvalidSavepoint,
    NumericValueOutOfRange,
    InvalidTextRepresentation,
    Authorization,
    DataException,
    ResourceLimit,
    NoDataFound,
}

/// An error: its kind, its SQLSTATE where it carries one, its message, and the
/// object it is about where it names one.
#[derive(Clone, Debug)]
pub struct SqlError {
    pub kind: SqlErrorKind,
    pub code: String,
    pub message: String,
    pub subject: Option<String>,
}

/// What an error says.
#[verifier::ext_equal]
pub struct ErrorView {
    pub kind: SqlErrorKind,
    pub code: Seq<char>,
    pub message: Seq<char>,
    pub subject: Option<Seq<char>>,
}

pub open spec fn view_option(s: Option<String>) -> Option<Seq<char>> {
    match s {
        Some(s) => Some(s@),
        None => None,
    }
}

impl View for SqlError {
    type V = ErrorView;

    open spec fn view(&self) -> ErrorView {
        ErrorView {
            kind: self.kind,
            code: self.code@,
            message: self.message@,
            subject: view_option(self.subject),
        }
    }
}

/// An error of a kind that carries a message only.
pub open spec fn plain_error(kind: SqlErrorKind, message: Seq<char>) -> ErrorView {
    ErrorView { kind, code: Seq::empty(), message, subject: None }
}

pub open spec fn invalid_sql_error(message: Seq<char>) -> ErrorView {
    plain_error(SqlErrorKind::InvalidSql, message)
}

pub open spec fn unsupported_error(message: Seq<char>) -> ErrorView {
    plain_error(SqlErrorKind::Unsupported, message)
}

pub open spec fn authorization_error(message: Seq<char>) -> ErrorView {
    plain_error(SqlErrorKind::Authorization, message)
}

pub open spec fn undefined_function_error(message: Seq<char>) -> ErrorView {
    plain_error(SqlErrorKind::UndefinedFunction, message)
}

pub open spec fn out_of_range_error(message: Seq<char>) -> ErrorView {
    plain_error(SqlErrorKind::NumericValueOutOfRange, message)
}

/// An error of a kind that names one object and no more.
pub open spec fn named_error(kind: SqlErrorKind, name: Seq<char>) -> ErrorView {
    ErrorView { kind, code: Seq::empty(), message: Seq::empty(), subject: Some(name) }
}

pub open spec fn invalid_collection_error(name: Seq<char>) -> ErrorView {
    named_error(SqlErrorKind::InvalidCollection, name)
}

pub open spec fn undefined_role_error(name: Seq<char>) -> ErrorView {
    named_error(SqlErrorKind::UndefinedRole, name)
}

pub open spec fn resource_limit_error(code: Seq<char>, message: Seq<char>) -> ErrorView {
    ErrorView { kind: SqlErrorKind::ResourceLimit, code, message, subject: None }
}

pub open spec fn constraint_violation_error(code: Seq<char>, message: Seq<char>) -> ErrorView {
    ErrorView { kind: SqlErrorKind::ConstraintViolation, code, message, subject: None }
}

pub open spec fn data_exception_error(
    code: Seq<char>,
    message: Seq<char>,
    subject: Option<Seq<char>>,
) -> ErrorView {
    ErrorView { kind: SqlErrorKind::DataException, code, message, subject }
}

impl SqlError {
    /// An error that says the same.
    pub fn copied(&self) -> (e: SqlError)
        ensures
            e@ == self@,
    {
        let subject = match &self.subject {
            Some(s) => Some(s.clone()),
            None => None,
        };
        let e = SqlError {
            kind: self.kind,
            code: self.code.clone(),
            message: self.message.clone(),
            subject,
        };
        assert(e@ =~= self@);
        e
    }

    pub fn plain(kind: SqlErrorKind, message: String) -> (e: SqlError)
        ensures
            e@ == plain_error(kind, message@),
    {
        let e = SqlError { kind, code: String::new(), message, subject: None };
        assert(e@ =~= plain_error(kind, message@));
        e
    }

    pub fn invalid_sql(message: String) -> (e: SqlError)
        ensures
            e@ == invalid_sql_error(message@),
    {
        SqlError::plain(SqlErrorKind::InvalidSql, message)
    }

    pub fn unsupported(message: String) -> (e: SqlError)
        ensures
            e@ == unsupported_error(message@),
    {
        SqlError::plain(SqlErrorKind::Unsupported, message)
    }

    pub fn authorization(message: String) -> (e: SqlError)
        ensures
            e@ == authorization_error(message@),
    {
        SqlError::plain(SqlErrorKind::Authorization, message)
    }

    pub fn undefined_function(message: String) -> (e: SqlError)
        ensures
            e@ == undefined_function_error(message@),
    {
        SqlError::plain(SqlErrorKind::UndefinedFunction, message)
    }

    pub fn out_of_range(message: &str) -> (e: SqlError)
        ensures
            e@ == out_of_range_error(message@),
    {
        SqlError::plain(SqlErrorKind::NumericValueOutOfRange, message.to_owned())
    }

    pub fn constraint_violation(code: &str, message: String) -> (e: SqlError)
        ensures
            e@ == constraint_violation_error(code@, message@),
    {
        let e = SqlError {
            kind: SqlErrorKind::ConstraintViolation,
            code: code.to_owned(),
            message,
            subject: None,
        };
        assert(e@ =~= constraint_violation_error(code@, message@));
        e
    }

    pub fn named(kind: SqlErrorKind, name: String) -> (e: SqlError)
        ensures
            e@ == named_error(kind, name@),
    {
        let e = SqlError { kind, code: String::new(), message: String::new(), subject: Some(name) };
        assert(e@ =~= named_error(kind, name@));
        e
    }

    pub fn invalid_collection(name: String) -> (e: SqlError)
        ensures
            e@ == invalid_collection_error(name@),
    {
        SqlError::named(SqlErrorKind::InvalidCollection, name)
    }

    pub fn undefined_role(name: String) -> (e: SqlError)
        ensures
            e@ == undefined_role_error(name@),
    {
        SqlError::named(SqlErrorKind::UndefinedRole, name)
    }

    pub fn resource_limit(code: &str, message: String) -> (e: SqlError)
        ensures
            e@ == resource_limit_error(code@, message@),
    {
        let e = SqlError {
            kind: SqlErrorKind::ResourceLimit,
            code: code.to_owned(),
            message,
            subject: None,
        };
        assert(e@ =~= resource_limit_error(code@, message@));
        e
    }

    pub fn data_exception(code: &str, message: String, subject: Option<String>) -> (e: SqlError)
        ensures
            e@ == data_exception_error(code@, message@, view_option(subject)),
    {
        let e = SqlError {
            kind: SqlErrorKind::DataException,
            code: code.to_owned(),
            message,
            subject,
        };
        assert(e@ =~= data_exception_error(code@, message@, view_option(subject)));
        e
    }
}

} // verus!
