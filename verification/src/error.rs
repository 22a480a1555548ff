//! Errors that a decision can end in.
use vstd::prelude::*;

verus! {

/// Why a decision could not be made, with the message for the user.
#[derive(Debug, Clone, PartialEq, Eq)]
pub enum Error {
    /// The user's input is not acceptable as written.
    Validation(String),
    /// Something the run needs does not exist or is not ready yet.
    MissingDependency(String),
    /// Something is not as it must be.
    Invariant(String),
    /// The API server or the way to it failed.
    Kube {
        /// The status code of the API server's answer, where it gave one.
        code: Option<u16>,
        /// What went wrong.
        message: String,
    },
}

impl Error {
    /// The message for the user.
    pub open spec fn text(self) -> Seq<char> {
        match self {
            Error::Validation(m) => m@,
            Error::MissingDependency(m) => m@,
            Error::Invariant(m) => m@,
            Error::Kube { message, .. } => message@,
        }
    }

    /// The message for the user.
    pub fn message(&self) -> (r: &str)
        ensures
            r@ == self.text(),
    {
        match self {
            Error::Validation(m) => m.as_str(),
            Error::MissingDependency(m) => m.as_str(),
            Error::Invariant(m) => m.as_str(),
            Error::Kube { message, .. } => message.as_str(),
        }
    }
}

/// An error's message is the one that it was made with, whatever sort of error it is.
pub proof fn lemma_errors_keep_their_message(m: String, code: Option<u16>)
    ensures
        Error::Validation(m).text() == m@,
        Error::MissingDependency(m).text() == m@,
        Error::Invariant(m).text() == m@,
        (Error::Kube { code, message: m }).text() == m@,
{
}

} // verus!
