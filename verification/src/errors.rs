use vstd::prelude::*;
use vstd::string::StringExecFns;

verus! {

/// A failure reported by the library: a tag and a human-readable message.
#[derive(Debug, PartialEq, Eq, Clone)]
pub enum Error {
    /// The source text is malformed.
    Syntax(String),
    /// An operation failed while a program was being evaluated.
    Runtime(String),
}

/// The mathematical value of an [`Error`].
pub enum Failure {
    Syntax(Seq<char>),
    Runtime(Seq<char>),
}

impl View for Error {
    type V = Failure;

    open spec fn view(&self) -> Failure {
        match self {
            Error::Syntax(message) => Failure::Syntax(message@),
            Error::Runtime(message) => Failure::Runtime(message@),
        }
    }
}

impl Failure {
    /// The text that names the kind of a failure in front of its message.
    pub open spec fn prefix(self) -> Seq<char> {
        match self {
            Failure::Syntax(_) => "SyntaxError: "@,
            Failure::Runtime(_) => "RuntimeError: "@,
        }
    }

    /// The message without the kind.
    pub open spec fn message(self) -> Seq<char> {
        match self {
            Failure::Syntax(message) => message,
            Failure::Runtime(message) => message,
        }
    }

    /// The failure as one line of text: the kind, then the message.
    pub open spec fn describe(self) -> Seq<char> {
        self.prefix() + self.message()
    }
}

impl Error {
    /// The message that the error carries, without its kind.
    pub fn message(&self) -> (text: &String)
        ensures
            text@ == self@.message(),
    {
        match self {
            Error::Syntax(message) => message,
            Error::Runtime(message) => message,
        }
    }

    /// The error as one line of text, `SyntaxError: ..` or `RuntimeError: ..`.
    pub fn describe(&self) -> (text: String)
        ensures
            text@ == self@.describe(),
    {
        match self {
            Error::Syntax(message) => String::from_str("SyntaxError: ").concat(message.as_str()),
            Error::Runtime(message) => String::from_str("RuntimeError: ").concat(message.as_str()),
        }
    }
}

} // verus!
