//! Error kinds of the index and of the registry around it.

use vstd::prelude::*;
use crate::version::Version;

verus! {

/// What can go wrong while reading or changing the index.
#[derive(Debug)]
pub enum IndexError {
    /// The package has no records at all.
    CrateNotFound { name: String },
    /// The package has no record of this exact version.
    VersionNotFound { name: String, version: Version },
    /// No record that is not yanked satisfies the requirement.
    NoMatchingVersion { name: String, requirement: String },
    /// The package already has a record of this version.
    DuplicateVersion { name: String, version: Version },
    /// A line of a record file could not be read as a record (lines count from 1).
    MalformedRecord { line: usize },
    /// The remote location is missing or cannot be used.
    ConfigurationError,
    /// Talking to the remote failed, or a conflict persisted through every retry.
    SyncError,
    /// The remote moved on since the last refresh: the push was rejected.
    ConflictError,
}

impl IndexError {
    /// Whether the cycle that met this error may run again from a refresh.
    pub fn is_retriable(&self) -> (r: bool)
        ensures
            r == (self is ConflictError),
    {
        match self {
            IndexError::ConflictError => true,
            _ => false,
        }
    }
}

/// The registry's own errors, shown to the users of its web front.
#[derive(Debug)]
pub enum AlexError {
    /// The requested crate cannot be found.
    CrateNotFound { name: String },
    /// The crate is not owned by the user.
    CrateNotOwned { name: String, author: String },
    /// The published version is not above the hosted one.
    VersionTooLow { krate: String, hosted: Version, published: Version },
    /// The token used to access the registry is invalid.
    InvalidToken,
    /// The request lacks required query parameters.
    MissingQueryParams { missing_params: Vec<String> },
}

/// HTTP status 400.
pub const BAD_REQUEST: u16 = 400;
/// HTTP status 401.
pub const UNAUTHORIZED: u16 = 401;
/// HTTP status 404.
pub const NOT_FOUND: u16 = 404;
/// HTTP status 500.
pub const INTERNAL_SERVER_ERROR: u16 = 500;

impl AlexError {
    /// The HTTP status that answers this error: 401 for a bad token, 400 otherwise.
    pub fn get_http_status_code(&self) -> (r: u16)
        ensures
            r == (if self is InvalidToken { UNAUTHORIZED } else { BAD_REQUEST }),
    {
        match self {
            AlexError::CrateNotFound { .. } => BAD_REQUEST,
            AlexError::CrateNotOwned { .. } => BAD_REQUEST,
            AlexError::VersionTooLow { .. } => BAD_REQUEST,
            AlexError::InvalidToken => UNAUTHORIZED,
            AlexError::MissingQueryParams { .. } => BAD_REQUEST,
        }
    }
}

/// Any error of the registry.
#[derive(Debug)]
pub enum Error {
    /// An error of the index.
    IndexError(IndexError),
    /// A text was not a valid version or version requirement.
    SemverError(String),
    /// An I/O, serialisation or database error, with its message.
    Internal(String),
    /// The registry's own errors.
    AlexError(AlexError),
}

/// The HTTP status that answers an error: the registry's own errors have
/// theirs, a missing package or version is 404, a duplicate version is 400,
/// and everything else is 500.
pub open spec fn status_of(e: Error) -> u16 {
    match e {
        Error::AlexError(a) => if a is InvalidToken { UNAUTHORIZED } else { BAD_REQUEST },
        Error::IndexError(i) => match i {
            IndexError::CrateNotFound { .. } => NOT_FOUND,
            IndexError::VersionNotFound { .. } => NOT_FOUND,
            IndexError::NoMatchingVersion { .. } => NOT_FOUND,
            IndexError::DuplicateVersion { .. } => BAD_REQUEST,
            _ => INTERNAL_SERVER_ERROR,
        },
        _ => INTERNAL_SERVER_ERROR,
    }
}

impl Error {
    /// The HTTP status that answers this error.
    pub fn get_http_status_code(&self) -> (r: u16)
        ensures
            r == status_of(*self),
    {
        match self {
            Error::AlexError(e) => e.get_http_status_code(),
            Error::IndexError(e) => match e {
                IndexError::CrateNotFound { .. } => NOT_FOUND,
                IndexError::VersionNotFound { .. } => NOT_FOUND,
                IndexError::NoMatchingVersion { .. } => NOT_FOUND,
                IndexError::DuplicateVersion { .. } => BAD_REQUEST,
                _ => INTERNAL_SERVER_ERROR,
            },
            _ => INTERNAL_SERVER_ERROR,
        }
    }

    /// The index error inside, if this is one.
    pub fn into_index_error(self) -> (r: Option<IndexError>)
        ensures
            r == (match self {
                Error::IndexError(e) => Some(e),
                _ => None,
            }),
    {
        match self {
            Error::IndexError(e) => Some(e),
            _ => None,
        }
    }

    /// The registry's own error inside, if this is one.
    pub fn into_alex_error(self) -> (r: Option<AlexError>)
        ensures
            r == (match self {
                Error::AlexError(e) => Some(e),
                _ => None,
            }),
    {
        match self {
            Error::AlexError(e) => Some(e),
            _ => None,
        }
    }

    /// Whether the answer shows the error's own message: only for a
    /// client error; a server error is answered with a generic one.
    pub fn is_user_facing(&self) -> (r: bool)
        ensures
            r == (status_of(*self) < INTERNAL_SERVER_ERROR),
    {
        self.get_http_status_code() < INTERNAL_SERVER_ERROR
    }
}

impl From<IndexError> for Error {
    fn from(e: IndexError) -> (r: Error)
        ensures
            r == Error::IndexError(e),
    {
        Error::IndexError(e)
    }
}

impl vstd::std_specs::convert::FromSpecImpl<IndexError> for Error {
    open spec fn obeys_from_spec() -> bool {
        true
    }

    open spec fn from_spec(e: IndexError) -> Error {
        Error::IndexError(e)
    }
}

impl From<AlexError> for Error {
    fn from(e: AlexError) -> (r: Error)
        ensures
            r == Error::AlexError(e),
    {
        Error::AlexError(e)
    }
}

impl vstd::std_specs::convert::FromSpecImpl<AlexError> for Error {
    open spec fn obeys_from_spec() -> bool {
        true
    }

    open spec fn from_spec(e: AlexError) -> Error {
        Error::AlexError(e)
    }
}

} // verus!
