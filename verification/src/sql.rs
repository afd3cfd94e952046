//! Database errors as the HTTP interface reports them.
use vstd::prelude::*;

verus! {

/// The kind of a database error as reported to clients.
#[derive(Debug)]
pub enum SqlReason {
    /// Nothing matched.
    NotFound,
    /// A uniqueness constraint (named here) was violated.
    Duplicate(String),
    /// Any other failure.
    Internal,
}

impl SqlReason {
    /// The reason as text (`SQL: NotFound`, `SQL: Duplicate`, `SQL: Internal`).
    pub fn message(&self) -> (r: String)
        ensures
            *self is NotFound ==> r@ == "SQL: NotFound"@,
            *self is Duplicate ==> r@ == "SQL: Duplicate"@,
            *self is Internal ==> r@ == "SQL: Internal"@,
    {
        match self {
            SqlReason::NotFound => "SQL: NotFound".to_owned(),
            SqlReason::Duplicate(_) => "SQL: Duplicate".to_owned(),
            SqlReason::Internal => "SQL: Internal".to_owned(),
        }
    }
}

/// An error answered as JSON, with its HTTP status code.
#[derive(Debug)]
pub struct JsonError<E> {
    pub error: E,
    pub status: u16,
}

impl<E> JsonError<E> {
    /// An error with the given status code.
    pub fn new(error: E, status: u16) -> (r: Self)
        ensures
            r.error == error,
            r.status == status,
    {
        JsonError { error, status }
    }
}

/// A database failure, as the classification reads it.
pub enum SqlFailure {
    /// No row was returned.
    RowNotFound,
    /// A type was not found.
    TypeNotFound,
    /// A column was not found.
    ColumnNotFound,
    /// The database refused the statement; with the violated constraint's name if any.
    Database(Option<String>),
    /// Any other failure (connection, protocol, decoding, ...).
    Other,
}

/// HTTP 404.
pub const STATUS_NOT_FOUND: u16 = 404;
/// HTTP 409.
pub const STATUS_CONFLICT: u16 = 409;
/// HTTP 500.
pub const STATUS_INTERNAL_SERVER_ERROR: u16 = 500;

/// Classifies a database failure: missing rows, types and columns are `NotFound` (404); a
/// violated constraint is `Duplicate` with its name (409); everything else is `Internal` (500).
pub fn json_error_from_sql(e: SqlFailure) -> (r: JsonError<SqlReason>)
    ensures
        match e {
            SqlFailure::RowNotFound | SqlFailure::TypeNotFound | SqlFailure::ColumnNotFound =>
                r.error is NotFound && r.status == STATUS_NOT_FOUND,
            SqlFailure::Database(Some(c)) =>
                (r.error matches SqlReason::Duplicate(d) && d@ == c@) && r.status == STATUS_CONFLICT,
            _ => r.error is Internal && r.status == STATUS_INTERNAL_SERVER_ERROR,
        },
{
    match e {
        SqlFailure::RowNotFound | SqlFailure::TypeNotFound | SqlFailure::ColumnNotFound => JsonError::new(
            SqlReason::NotFound,
            STATUS_NOT_FOUND,
        ),
        SqlFailure::Database(Some(c)) => JsonError::new(SqlReason::Duplicate(c), STATUS_CONFLICT),
        _ => JsonError::new(SqlReason::Internal, STATUS_INTERNAL_SERVER_ERROR),
    }
}

} // verus!
