//! The failures of the library.

use vstd::prelude::*;
use vstd::string::StringExecFns;

verus! {

/// The kind of a failure, without its message.
#[derive(Debug, Clone, Copy, PartialEq, Eq, Structural)]
pub enum ErrorKind {
    InvalidRdf,
    InvalidResult,
    InvalidSettingsField,
    InvalidIO,
    InvalidRequest,
    InvalidProgressBarTemplate,
    InvalidSQLITE,
    InvalidUTF8String,
    InvalidCacheLocation,
    InvalidUrl,
    InvalidQuery,
}

/// A failure of the library, with a message for the reader.
#[derive(Debug)]
pub enum Error {
    /// A document is not well formed, or a value in it cannot be read.
    InvalidRdf(String),
    /// A matcher was asked for something it does not hold.
    InvalidResult(String),
    /// A settings field has the wrong type.
    InvalidSettingsField(String),
    InvalidIO(String),
    InvalidRequest(String),
    InvalidProgressBarTemplate(String),
    InvalidSQLITE(String),
    /// Text is not valid UTF-8.
    InvalidUTF8String(String),
    InvalidCacheLocation(String),
    InvalidUrl(String),
    /// A query predicate is not a string.
    InvalidQuery(String),
}

impl Error {
    /// Which kind of failure this is.
    pub open spec fn kind(&self) -> ErrorKind {
        match self {
            Error::InvalidRdf(_) => ErrorKind::InvalidRdf,
            Error::InvalidResult(_) => ErrorKind::InvalidResult,
            Error::InvalidSettingsField(_) => ErrorKind::InvalidSettingsField,
            Error::InvalidIO(_) => ErrorKind::InvalidIO,
            Error::InvalidRequest(_) => ErrorKind::InvalidRequest,
            Error::InvalidProgressBarTemplate(_) => ErrorKind::InvalidProgressBarTemplate,
            Error::InvalidSQLITE(_) => ErrorKind::InvalidSQLITE,
            Error::InvalidUTF8String(_) => ErrorKind::InvalidUTF8String,
            Error::InvalidCacheLocation(_) => ErrorKind::InvalidCacheLocation,
            Error::InvalidUrl(_) => ErrorKind::InvalidUrl,
            Error::InvalidQuery(_) => ErrorKind::InvalidQuery,
        }
    }

    /// The message carried by the failure.
    pub open spec fn message(&self) -> Seq<char> {
        match self {
            Error::InvalidRdf(m) => m@,
            Error::InvalidResult(m) => m@,
            Error::InvalidSettingsField(m) => m@,
            Error::InvalidIO(m) => m@,
            Error::InvalidRequest(m) => m@,
            Error::InvalidProgressBarTemplate(m) => m@,
            Error::InvalidSQLITE(m) => m@,
            Error::InvalidUTF8String(m) => m@,
            Error::InvalidCacheLocation(m) => m@,
            Error::InvalidUrl(m) => m@,
            Error::InvalidQuery(m) => m@,
        }
    }

    /// The words that introduce a failure of the given kind when it is shown.
    pub open spec fn label(kind: ErrorKind) -> Seq<char> {
        match kind {
            ErrorKind::InvalidRdf => "Rdf parsing error: `"@,
            ErrorKind::InvalidResult => "Invalid result: `"@,
            ErrorKind::InvalidSettingsField => "Settings error: `"@,
            ErrorKind::InvalidIO => "Io Error: `"@,
            ErrorKind::InvalidRequest => "Request error: `"@,
            ErrorKind::InvalidProgressBarTemplate => "Progress bar template error: `"@,
            ErrorKind::InvalidSQLITE => "SQLITE error: `"@,
            ErrorKind::InvalidUTF8String => "UTF8 error: `"@,
            ErrorKind::InvalidCacheLocation => "Invalid Cache: `"@,
            ErrorKind::InvalidUrl => "Invalid URl: `"@,
            ErrorKind::InvalidQuery => "Invalid Query: `"@,
        }
    }

    /// Which kind of failure this is.
    pub fn error_kind(&self) -> (kind: ErrorKind)
        ensures
            kind == self.kind(),
    {
        match self {
            Error::InvalidRdf(_) => ErrorKind::InvalidRdf,
            Error::InvalidResult(_) => ErrorKind::InvalidResult,
            Error::InvalidSettingsField(_) => ErrorKind::InvalidSettingsField,
            Error::InvalidIO(_) => ErrorKind::InvalidIO,
            Error::InvalidRequest(_) => ErrorKind::InvalidRequest,
            Error::InvalidProgressBarTemplate(_) => ErrorKind::InvalidProgressBarTemplate,
            Error::InvalidSQLITE(_) => ErrorKind::InvalidSQLITE,
            Error::InvalidUTF8String(_) => ErrorKind::InvalidUTF8String,
            Error::InvalidCacheLocation(_) => ErrorKind::InvalidCacheLocation,
            Error::InvalidUrl(_) => ErrorKind::InvalidUrl,
            Error::InvalidQuery(_) => ErrorKind::InvalidQuery,
        }
    }

    /// The failure as one line of text: the label of its kind, the message,
    /// and a closing back quote.
    pub fn to_string(&self) -> (text: String)
        ensures
            text@ == Error::label(self.kind()) + self.message() + "`"@,
    {
        let (label, message) = match self {
            Error::InvalidRdf(m) => ("Rdf parsing error: `", m),
            Error::InvalidResult(m) => ("Invalid result: `", m),
            Error::InvalidSettingsField(m) => ("Settings error: `", m),
            Error::InvalidIO(m) => ("Io Error: `", m),
            Error::InvalidRequest(m) => ("Request error: `", m),
            Error::InvalidProgressBarTemplate(m) => ("Progress bar template error: `", m),
            Error::InvalidSQLITE(m) => ("SQLITE error: `", m),
            Error::InvalidUTF8String(m) => ("UTF8 error: `", m),
            Error::InvalidCacheLocation(m) => ("Invalid Cache: `", m),
            Error::InvalidUrl(m) => ("Invalid URl: `", m),
            Error::InvalidQuery(m) => ("Invalid Query: `", m),
        };
        let mut text = String::from_str(label);
        text.append(message.as_str());
        text.append("`");
        text
    }
}

} // verus!
