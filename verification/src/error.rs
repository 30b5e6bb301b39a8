use vstd::prelude::*;

verus! {

/// What a query reports when it cannot be answered.
///
/// A query that is well formed but has no answer is not an error: it yields
/// `Ok(None)`.
#[derive(Debug, Clone)]
pub enum QueryError {
    /// A line or column below 1 was given.
    InvalidCoordinate,
    /// The position does not exist in the file as the engine sees it.
    OutOfBounds,
    /// The path or file identifier is not part of the workspace.
    UnknownFile,
    /// The engine refused or abandoned the query, or broke its own rules;
    /// the text says how.
    EngineQueryFailed(String),
    /// Reading or writing a file failed; the text names the file and the
    /// cause.
    IoError(String),
}

/// The kinds of error, without their texts.
#[derive(Debug, Clone, Copy, PartialEq, Eq, Structural)]
pub enum ErrorKind {
    InvalidCoordinate,
    OutOfBounds,
    UnknownFile,
    EngineQueryFailed,
    IoError,
}

impl QueryError {
    /// The kind of this error.
    pub open spec fn kind(self) -> ErrorKind {
        match self {
            QueryError::InvalidCoordinate => ErrorKind::InvalidCoordinate,
            QueryError::OutOfBounds => ErrorKind::OutOfBounds,
            QueryError::UnknownFile => ErrorKind::UnknownFile,
            QueryError::EngineQueryFailed(_) => ErrorKind::EngineQueryFailed,
            QueryError::IoError(_) => ErrorKind::IoError,
        }
    }

    /// The kind of this error.
    pub fn error_kind(&self) -> (kind: ErrorKind)
        ensures
            kind == self.kind(),
    {
        match self {
            QueryError::InvalidCoordinate => ErrorKind::InvalidCoordinate,
            QueryError::OutOfBounds => ErrorKind::OutOfBounds,
            QueryError::UnknownFile => ErrorKind::UnknownFile,
            QueryError::EngineQueryFailed(_) => ErrorKind::EngineQueryFailed,
            QueryError::IoError(_) => ErrorKind::IoError,
        }
    }

    /// An engine failure with the text `detail`.
    pub fn engine(detail: &str) -> (error: QueryError)
        ensures
            error matches QueryError::EngineQueryFailed(text) && text@ == detail@,
    {
        QueryError::EngineQueryFailed(detail.to_owned())
    }
}

} // verus!
