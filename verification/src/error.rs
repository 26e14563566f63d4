//! The error type shared by every fallible operation.

use vstd::prelude::*;
use vstd::string::*;

verus! {

/// The class of a failure, without its message.
#[derive(Debug, Clone, Copy, PartialEq, Eq, Structural)]
pub enum ErrorKind {
    /// An out-of-range or otherwise unusable parameter.
    Config,
    /// A failed I/O operation.
    Io,
    /// A failed authentication or validation.
    Auth,
    /// A failure inside the processing itself.
    Internal,
    /// A failure of the profile store: size limit, key length, missing backup.
    Storage,
}

/// A failure together with a human-readable message.
#[derive(Debug, Clone)]
pub enum AegntError {
    /// Configuration errors.
    Config(String),
    /// I/O operation errors.
    Io(String),
    /// Authentication or validation errors.
    Auth(String),
    /// Internal processing errors.
    Internal(String),
    /// Profile store errors.
    Storage(String),
}

/// The result type of every fallible operation.
pub type Result<T> = core::result::Result<T, AegntError>;

/// The label that precedes the message of an error of the given kind.
pub open spec fn kind_label(kind: ErrorKind) -> Seq<char> {
    match kind {
        ErrorKind::Config => "Configuration error: "@,
        ErrorKind::Io => "I/O error: "@,
        ErrorKind::Auth => "Authentication error: "@,
        ErrorKind::Internal => "Internal error: "@,
        ErrorKind::Storage => "Storage error: "@,
    }
}

impl AegntError {
    /// The class of this error.
    pub open spec fn spec_kind(&self) -> ErrorKind {
        match self {
            AegntError::Config(_) => ErrorKind::Config,
            AegntError::Io(_) => ErrorKind::Io,
            AegntError::Auth(_) => ErrorKind::Auth,
            AegntError::Internal(_) => ErrorKind::Internal,
            AegntError::Storage(_) => ErrorKind::Storage,
        }
    }

    /// The message this error carries, without the label of its kind.
    pub open spec fn detail(&self) -> Seq<char> {
        match self {
            AegntError::Config(m) => m@,
            AegntError::Io(m) => m@,
            AegntError::Auth(m) => m@,
            AegntError::Internal(m) => m@,
            AegntError::Storage(m) => m@,
        }
    }

    /// Create a configuration error.
    pub fn config(msg: &str) -> (e: Self)
        ensures
            e.spec_kind() == ErrorKind::Config,
            e.detail() == msg@,
    {
        AegntError::Config(String::from_str(msg))
    }

    /// Create an I/O error.
    pub fn io(msg: &str) -> (e: Self)
        ensures
            e.spec_kind() == ErrorKind::Io,
            e.detail() == msg@,
    {
        AegntError::Io(String::from_str(msg))
    }

    /// Create an authentication error.
    pub fn auth(msg: &str) -> (e: Self)
        ensures
            e.spec_kind() == ErrorKind::Auth,
            e.detail() == msg@,
    {
        AegntError::Auth(String::from_str(msg))
    }

    /// Create an internal error.
    pub fn internal(msg: &str) -> (e: Self)
        ensures
            e.spec_kind() == ErrorKind::Internal,
            e.detail() == msg@,
    {
        AegntError::Internal(String::from_str(msg))
    }

    /// Create a storage error.
    pub fn storage(msg: &str) -> (e: Self)
        ensures
            e.spec_kind() == ErrorKind::Storage,
            e.detail() == msg@,
    {
        AegntError::Storage(String::from_str(msg))
    }

    /// The class of this error.
    #[verifier::when_used_as_spec(spec_kind)]
    pub fn kind(&self) -> (k: ErrorKind)
        ensures
            k == self.spec_kind(),
    {
        match self {
            AegntError::Config(_) => ErrorKind::Config,
            AegntError::Io(_) => ErrorKind::Io,
            AegntError::Auth(_) => ErrorKind::Auth,
            AegntError::Internal(_) => ErrorKind::Internal,
            AegntError::Storage(_) => ErrorKind::Storage,
        }
    }

    /// The text shown to a user: the label of the kind, then the message.
    pub fn message(&self) -> (text: String)
        ensures
            text@ == kind_label(self.spec_kind()) + self.detail(),
    {
        match self {
            AegntError::Config(m) => String::from_str("Configuration error: ").concat(m.as_str()),
            AegntError::Io(m) => String::from_str("I/O error: ").concat(m.as_str()),
            AegntError::Auth(m) => String::from_str("Authentication error: ").concat(m.as_str()),
            AegntError::Internal(m) => String::from_str("Internal error: ").concat(m.as_str()),
            AegntError::Storage(m) => String::from_str("Storage error: ").concat(m.as_str()),
        }
    }
}

} // verus!
