//! Error taxonomy for the database access core.
//!
//! Backend clients never recover internally: every driver failure is
//! wrapped into one of these categories and returned to the caller.

use vstd::prelude::*;

verus! {

/// The failure categories that callers of this crate observe.
#[derive(Debug, Clone)]
pub enum AppError {
    /// Pool creation or connection establishment failed.
    DatabaseConnection(String),
    /// A statement failed during execution.
    QueryExecution(String),
    /// A file-picking dialog failed.
    FileDialog(String),
    /// Schema introspection failed.
    TableFetch(String),
    /// Caller-supplied input was rejected before any driver call.
    InvalidInput(String),
}

/// Result type for operations of this crate.
pub type AppResult<T> = Result<T, AppError>;

/// The user-facing text of an error: a fixed category prefix followed
/// by the wrapped driver or input message.
pub open spec fn error_message(e: AppError) -> Seq<char> {
    match e {
        AppError::DatabaseConnection(m) => "Database connection failed: "@ + m@,
        AppError::QueryExecution(m) => "Query execution failed: "@ + m@,
        AppError::FileDialog(m) => "File dialog error: "@ + m@,
        AppError::TableFetch(m) => "Failed to fetch tables: "@ + m@,
        AppError::InvalidInput(m) => "Invalid input: "@ + m@,
    }
}

impl AppError {
    /// The display string that the UI surfaces verbatim.
    pub fn message(&self) -> (r: String)
        ensures
            r@ == error_message(*self),
    {
        match self {
            AppError::DatabaseConnection(m) => String::from_str("Database connection failed: ").concat(m.as_str()),
            AppError::QueryExecution(m) => String::from_str("Query execution failed: ").concat(m.as_str()),
            AppError::FileDialog(m) => String::from_str("File dialog error: ").concat(m.as_str()),
            AppError::TableFetch(m) => String::from_str("Failed to fetch tables: ").concat(m.as_str()),
            AppError::InvalidInput(m) => String::from_str("Invalid input: ").concat(m.as_str()),
        }
    }
}

} // verus!
