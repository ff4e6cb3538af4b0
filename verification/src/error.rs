//! The error taxonomy shared by every operation of the library.

use vstd::prelude::*;
use vstd::string::*;

verus! {

/// Every failure the library reports, by kind, with a human-readable message.
#[derive(Debug)]
pub enum CrateSpecError {
    /// Reading or writing failed.
    Io(String),
    /// A file that was asked for does not exist; holds its path.
    FileNotFound(String),
    /// The configuration is incomplete or inconsistent.
    ConfigError(String),
    /// An argument is missing or not acceptable.
    ValidationError(String),
    /// The network layer could not be set up.
    NetworkError(String),
    /// The PKI service failed, refused or answered with something unreadable.
    PkiError(String),
    /// A signature could not be made or did not verify.
    SignatureError(String),
    /// The container is structurally corrupt.
    DecodeError(String),
    /// The in-memory package cannot be written as a container.
    EncodeError(String),
    /// A certificate, key or manifest could not be parsed.
    ParseError(String),
    /// Anything else.
    Other(String),
}

/// Outcome of the library's operations.
pub type Result<T> = core::result::Result<T, CrateSpecError>;

impl CrateSpecError {
    /// The label that precedes the message in the one-line rendering of an error.
    pub open spec fn spec_kind(self) -> Seq<char> {
        match self {
            CrateSpecError::Io(_) => "io error"@,
            CrateSpecError::FileNotFound(_) => "file not found"@,
            CrateSpecError::ConfigError(_) => "config error"@,
            CrateSpecError::ValidationError(_) => "validation error"@,
            CrateSpecError::NetworkError(_) => "network error"@,
            CrateSpecError::PkiError(_) => "pki error"@,
            CrateSpecError::SignatureError(_) => "signature error"@,
            CrateSpecError::DecodeError(_) => "decode error"@,
            CrateSpecError::EncodeError(_) => "encode error"@,
            CrateSpecError::ParseError(_) => "parse error"@,
            CrateSpecError::Other(_) => "error"@,
        }
    }

    /// The message carried by the error, whatever its kind.
    pub open spec fn spec_message(self) -> Seq<char> {
        match self {
            CrateSpecError::Io(m) => m@,
            CrateSpecError::FileNotFound(m) => m@,
            CrateSpecError::ConfigError(m) => m@,
            CrateSpecError::ValidationError(m) => m@,
            CrateSpecError::NetworkError(m) => m@,
            CrateSpecError::PkiError(m) => m@,
            CrateSpecError::SignatureError(m) => m@,
            CrateSpecError::DecodeError(m) => m@,
            CrateSpecError::EncodeError(m) => m@,
            CrateSpecError::ParseError(m) => m@,
            CrateSpecError::Other(m) => m@,
        }
    }

    /// The label of the error's kind.
    pub fn kind(&self) -> (r: &'static str)
        ensures
            r@ == self.spec_kind(),
    {
        match self {
            CrateSpecError::Io(_) => "io error",
            CrateSpecError::FileNotFound(_) => "file not found",
            CrateSpecError::ConfigError(_) => "config error",
            CrateSpecError::ValidationError(_) => "validation error",
            CrateSpecError::NetworkError(_) => "network error",
            CrateSpecError::PkiError(_) => "pki error",
            CrateSpecError::SignatureError(_) => "signature error",
            CrateSpecError::DecodeError(_) => "decode error",
            CrateSpecError::EncodeError(_) => "encode error",
            CrateSpecError::ParseError(_) => "parse error",
            CrateSpecError::Other(_) => "error",
        }
    }

    /// The message carried by the error.
    pub fn message(&self) -> (r: &str)
        ensures
            r@ == self.spec_message(),
    {
        match self {
            CrateSpecError::Io(m) => m.as_str(),
            CrateSpecError::FileNotFound(m) => m.as_str(),
            CrateSpecError::ConfigError(m) => m.as_str(),
            CrateSpecError::ValidationError(m) => m.as_str(),
            CrateSpecError::NetworkError(m) => m.as_str(),
            CrateSpecError::PkiError(m) => m.as_str(),
            CrateSpecError::SignatureError(m) => m.as_str(),
            CrateSpecError::DecodeError(m) => m.as_str(),
            CrateSpecError::EncodeError(m) => m.as_str(),
            CrateSpecError::ParseError(m) => m.as_str(),
            CrateSpecError::Other(m) => m.as_str(),
        }
    }

    /// One line for the user: the kind, a colon and a space, then the message.
    pub fn describe(&self) -> (r: String)
        ensures
            r@ == self.spec_kind() + ": "@ + self.spec_message(),
    {
        let mut out = String::from_str(self.kind());
        out.append(": ");
        out.append(self.message());
        out
    }
}

impl From<String> for CrateSpecError {
    /// A message without a kind is an error of the kind `Other`.
    fn from(err: String) -> (r: Self) {
        CrateSpecError::Other(err)
    }
}

impl vstd::std_specs::convert::FromSpecImpl<String> for CrateSpecError {
    open spec fn obeys_from_spec() -> bool {
        true
    }

    open spec fn from_spec(err: String) -> Self {
        CrateSpecError::Other(err)
    }
}

impl<'a> From<&'a str> for CrateSpecError {
    /// A message without a kind is an error of the kind `Other`.
    fn from(err: &'a str) -> (r: Self)
        ensures
            r is Other,
            r.spec_message() == err@,
    {
        CrateSpecError::Other(String::from_str(err))
    }
}

impl<'a> vstd::std_specs::convert::FromSpecImpl<&'a str> for CrateSpecError {
    open spec fn obeys_from_spec() -> bool {
        false
    }

    open spec fn from_spec(err: &'a str) -> Self {
        arbitrary()
    }
}

} // verus!
