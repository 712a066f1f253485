//! Errors.
use vstd::prelude::*;

verus! {

/// SQLite's code for a generic error.
pub const SQLITE_ERROR: i32 = 1;

/// SQLite's code for a locked table.
pub const SQLITE_LOCKED: i32 = 6;

/// SQLite's code for a file that cannot be opened.
pub const SQLITE_CANTOPEN: i32 = 14;

/// What went wrong with the database.
#[derive(Debug, Clone)]
pub enum DatabaseError {
    /// The engine failed, or could not be used.
    SqliteFailure { code: i32, message: Option<String> },
    /// A query for one row gave none.
    QueryReturnedNoRows,
    /// A row has no column of this number.
    InvalidColumnIndex { column: usize },
    /// A column holds a value of another type.
    InvalidColumnType { column: usize },
    /// A column holds an integer that does not fit.
    IntegralValueOutOfRange { column: usize, value: i64 },
    /// A column holds a text that is not UTF-8.
    Utf8Error { column: usize },
    /// Anything else, in words.
    Other { message: String },
}

#[verifier::ext_equal]
pub enum DatabaseErrorView {
    SqliteFailure { code: i32, message: Option<Seq<char>> },
    QueryReturnedNoRows,
    InvalidColumnIndex { column: int },
    InvalidColumnType { column: int },
    IntegralValueOutOfRange { column: int, value: int },
    Utf8Error { column: int },
    Other { message: Seq<char> },
}

impl View for DatabaseError {
    type V = DatabaseErrorView;

    open spec fn view(&self) -> DatabaseErrorView {
        match self {
            DatabaseError::SqliteFailure { code, message } => DatabaseErrorView::SqliteFailure {
                code: *code,
                message: message.deep_view(),
            },
            DatabaseError::QueryReturnedNoRows => DatabaseErrorView::QueryReturnedNoRows,
            DatabaseError::InvalidColumnIndex { column } => DatabaseErrorView::InvalidColumnIndex {
                column: *column as int,
            },
            DatabaseError::InvalidColumnType { column } => DatabaseErrorView::InvalidColumnType {
                column: *column as int,
            },
            DatabaseError::IntegralValueOutOfRange { column, value } =>
                DatabaseErrorView::IntegralValueOutOfRange {
                column: *column as int,
                value: *value as int,
            },
            DatabaseError::Utf8Error { column } => DatabaseErrorView::Utf8Error {
                column: *column as int,
            },
            DatabaseError::Other { message } => DatabaseErrorView::Other { message: message@ },
        }
    }
}

/// The library's error.
#[derive(Debug, Clone)]
pub enum NoteDeckError {
    Database(DatabaseError),
}

impl View for NoteDeckError {
    type V = DatabaseErrorView;

    open spec fn view(&self) -> DatabaseErrorView {
        match self {
            NoteDeckError::Database(e) => e@,
        }
    }
}

impl DeepView for NoteDeckError {
    type V = DatabaseErrorView;

    open spec fn deep_view(&self) -> DatabaseErrorView {
        self.view()
    }
}

impl NoteDeckError {
    /// An error with the same contents.
    pub fn copied(&self) -> (r: NoteDeckError)
        ensures
            r@ == self@,
    {
        match self {
            NoteDeckError::Database(e) => NoteDeckError::Database(
                match e {
                    DatabaseError::SqliteFailure { code, message } => DatabaseError::SqliteFailure {
                        code: *code,
                        message: match message {
                            Some(s) => Some(s.clone()),
                            None => None,
                        },
                    },
                    DatabaseError::QueryReturnedNoRows => DatabaseError::QueryReturnedNoRows,
                    DatabaseError::InvalidColumnIndex { column } =>
                        DatabaseError::InvalidColumnIndex { column: *column },
                    DatabaseError::InvalidColumnType { column } =>
                        DatabaseError::InvalidColumnType { column: *column },
                    DatabaseError::IntegralValueOutOfRange { column, value } =>
                        DatabaseError::IntegralValueOutOfRange { column: *column, value: *value },
                    DatabaseError::Utf8Error { column } => DatabaseError::Utf8Error {
                        column: *column,
                    },
                    DatabaseError::Other { message } => DatabaseError::Other {
                        message: message.clone(),
                    },
                },
            ),
        }
    }

    /// The failure that SQLite reports by `code`, with a message.
    pub fn sqlite(code: i32, message: String) -> (r: NoteDeckError)
        ensures
            r@ == (DatabaseErrorView::SqliteFailure { code, message: Some(message@) }),
    {
        NoteDeckError::Database(DatabaseError::SqliteFailure { code, message: Some(message) })
    }
}

} // verus!
