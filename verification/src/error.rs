//! The errors of the encrypted file format and of the key hierarchy.

use vstd::prelude::*;
use vstd::string::*;

verus! {

/// What went wrong, as far as a caller acts on it.
#[derive(Debug, Clone, Copy, PartialEq, Eq, Structural)]
pub enum CryptoErrorKind {
    Internal,
    KeyUnavailable,
    NotFound,
    InvalidFormat,
    Corrupt,
}

/// An error: its kind, and a message for the user.
#[derive(Debug)]
pub struct CryptoError {
    pub kind: CryptoErrorKind,
    pub message: String,
}

/// A `CryptoError` with its message as a sequence of characters.
pub struct CryptoErrorView {
    pub kind: CryptoErrorKind,
    pub message: Seq<char>,
}

impl View for CryptoError {
    type V = CryptoErrorView;

    open spec fn view(&self) -> CryptoErrorView {
        CryptoErrorView { kind: self.kind, message: self.message@ }
    }
}

/// The error of the given kind and message.
pub open spec fn fault(kind: CryptoErrorKind, message: Seq<char>) -> CryptoErrorView {
    CryptoErrorView { kind, message }
}

/// The internal error with the given message.
pub open spec fn internal(message: Seq<char>) -> CryptoErrorView {
    fault(CryptoErrorKind::Internal, message)
}

/// An outcome with its value or its error as a mathematical value.
pub open spec fn seen<T: View>(outcome: Result<T, CryptoError>) -> Result<T::V, CryptoErrorView> {
    match outcome {
        Ok(value) => Ok(value@),
        Err(error) => Err(error@),
    }
}

impl CryptoError {
    /// An internal error.
    pub fn new(message: &str) -> (error: Self)
        ensures
            error@ == internal(message@),
    {
        CryptoError { kind: CryptoErrorKind::Internal, message: message.to_string() }
    }

    /// An error of the given kind.
    pub fn with_kind(kind: CryptoErrorKind, message: &str) -> (error: Self)
        ensures
            error@ == fault(kind, message@),
    {
        CryptoError { kind, message: message.to_string() }
    }

    /// An error whose message ends in what another component reported.
    pub fn reported(kind: CryptoErrorKind, message: &str, report: &str) -> (error: Self)
        ensures
            error@ == fault(kind, message@ + report@),
    {
        CryptoError { kind, message: message.to_string().concat(report) }
    }

    /// The text that stands for the error: its message.
    pub fn to_text(&self) -> (text: String)
        ensures
            text@ == self@.message,
    {
        self.message.clone()
    }
}

/// An error says what it was made to say.
pub proof fn errors_say_what_they_were_given(kind: CryptoErrorKind, message: Seq<char>)
    ensures
        fault(kind, message).kind == kind,
        fault(kind, message).message == message,
        internal(message).kind is Internal,
        internal(message).message == message,
{
}

} // verus!
