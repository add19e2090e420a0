//! Error taxonomy shared by every operation of the library.

use vstd::prelude::*;

verus! {

/// Structured failures surfaced to callers. Each variant carries a
/// human-readable message describing the root cause.
#[derive(Debug, Clone)]
pub enum AppError {
    FileNotFound(String),
    FileReadError(String),
    FileWriteError(String),
    InvalidFormat(String),
    IoError(String),
    ParseError(String),
    DatabaseError(String),
    Unknown(String),
}

impl AppError {
    /// The message carried by the error, whatever its variant.
    pub fn message(&self) -> (r: &String)
        ensures
            r@ == self.message_view(),
    {
        match self {
            AppError::FileNotFound(m) => m,
            AppError::FileReadError(m) => m,
            AppError::FileWriteError(m) => m,
            AppError::InvalidFormat(m) => m,
            AppError::IoError(m) => m,
            AppError::ParseError(m) => m,
            AppError::DatabaseError(m) => m,
            AppError::Unknown(m) => m,
        }
    }

    pub open spec fn message_view(&self) -> Seq<char> {
        match self {
            AppError::FileNotFound(m) => m@,
            AppError::FileReadError(m) => m@,
            AppError::FileWriteError(m) => m@,
            AppError::InvalidFormat(m) => m@,
            AppError::IoError(m) => m@,
            AppError::ParseError(m) => m@,
            AppError::DatabaseError(m) => m@,
            AppError::Unknown(m) => m@,
        }
    }

    pub fn is_file_read_error(&self) -> (r: bool)
        ensures
            r == (self is FileReadError),
    {
        matches!(self, AppError::FileReadError(_))
    }

    pub fn is_invalid_format(&self) -> (r: bool)
        ensures
            r == (self is InvalidFormat),
    {
        matches!(self, AppError::InvalidFormat(_))
    }
}

} // verus!
