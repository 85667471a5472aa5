//! The error type of the library.

use vstd::prelude::*;
use crate::text::concat3;

verus! {

/// What went wrong, in broad terms.
#[derive(Debug, Clone, Copy, PartialEq, Eq, Structural)]
pub enum HbciErrorKind {
    Callback,
    Config,
    InvalidArgument,
    Network,
    Protocol,
    Storage,
    Unsupported,
}

/// The abstract content of an error.
pub ghost struct ErrorView {
    pub kind: HbciErrorKind,
    pub message: Seq<char>,
    pub source: Option<Seq<char>>,
}

/// An error with its kind, a message and the text of an underlying cause.
#[derive(Debug, Clone)]
pub struct HbciError {
    kind: HbciErrorKind,
    message: String,
    source: Option<String>,
}

/// The result type used throughout the library.
pub type HbciResult<T> = Result<T, HbciError>;

impl View for HbciError {
    type V = ErrorView;

    closed spec fn view(&self) -> ErrorView {
        ErrorView {
            kind: self.kind,
            message: self.message@,
            source: match self.source {
                Some(s) => Some(s@),
                None => None,
            },
        }
    }
}

impl HbciError {
    /// An error without an underlying cause.
    pub fn new(kind: HbciErrorKind, message: &str) -> (e: Self)
        ensures
            e@ == (ErrorView { kind, message: message@, source: None }),
    {
        HbciError { kind, message: message.to_owned(), source: None }
    }

    /// An error that carries the text of its cause.
    pub fn with_source(kind: HbciErrorKind, message: &str, source: &str) -> (e: Self)
        ensures
            e@ == (ErrorView { kind, message: message@, source: Some(source@) }),
    {
        HbciError { kind, message: message.to_owned(), source: Some(source.to_owned()) }
    }

    pub fn kind(&self) -> (k: HbciErrorKind)
        ensures
            k == self@.kind,
    {
        self.kind
    }

    pub fn message(&self) -> (m: &str)
        ensures
            m@ == self@.message,
    {
        self.message.as_str()
    }

    pub fn source_message(&self) -> (m: Option<&str>)
        ensures
            m matches Some(s) ==> self@.source == Some(s@),
            m is None ==> self@.source is None,
    {
        match &self.source {
            Some(s) => Some(s.as_str()),
            None => None,
        }
    }

    /// An error of kind `Unsupported`.
    pub fn unsupported(message: &str) -> (e: Self)
        ensures
            e@ == (ErrorView { kind: HbciErrorKind::Unsupported, message: message@, source: None }),
    {
        Self::new(HbciErrorKind::Unsupported, message)
    }

    /// The text that `Display` shows: the message, then `": "` and the cause.
    pub fn to_display_string(&self) -> (s: String)
        ensures
            self@.source is None ==> s@ == self@.message,
            self@.source matches Some(src) ==> s@ == self@.message + ": "@ + src,
    {
        match &self.source {
            Some(source) => concat3(self.message.as_str(), ": ", source.as_str()),
            None => self.message.clone(),
        }
    }
}

/// An error of the given kind whose message is `a` followed by `b`.
pub fn error2(kind: HbciErrorKind, a: &str, b: &str) -> (e: HbciError)
    ensures
        e@.kind == kind,
        e@.message == a@ + b@,
        e@.source is None,
{
    let m = crate::text::concat(a, b);
    HbciError::new(kind, m.as_str())
}

} // verus!
