//! The library's error type.

use vstd::prelude::*;

verus! {

/// What can go wrong, each with a message.
#[derive(Debug, PartialEq, Clone)]
pub enum Error {
    Request(String),
    General(String),
    IO(String),
    Parser(String),
    InvalidValue(String),
    TypeConversion(String),
    PathNotFound(String),
}

/// The kind of an error and its message.
pub open spec fn kind_and_message(e: &Error) -> (Seq<char>, Seq<char>) {
    match e {
        Error::Request(m) => ("Request"@, m@),
        Error::General(m) => ("General"@, m@),
        Error::IO(m) => ("IO"@, m@),
        Error::Parser(m) => ("Parser"@, m@),
        Error::InvalidValue(m) => ("InvalidValue"@, m@),
        Error::TypeConversion(m) => ("TypeConversion"@, m@),
        Error::PathNotFound(m) => ("PathNotFound"@, m@),
    }
}

impl Error {
    /// The error as text: its kind, then its message quoted in parentheses.
    pub fn message(&self) -> (r: String)
        ensures
            r@ == kind_and_message(self).0 + "(\""@ + kind_and_message(self).1 + "\")"@,
    {
        let (kind, msg) = match self {
            Error::Request(m) => ("Request", m),
            Error::General(m) => ("General", m),
            Error::IO(m) => ("IO", m),
            Error::Parser(m) => ("Parser", m),
            Error::InvalidValue(m) => ("InvalidValue", m),
            Error::TypeConversion(m) => ("TypeConversion", m),
            Error::PathNotFound(m) => ("PathNotFound", m),
        };
        let mut r = String::new();
        r.append(kind);
        r.append("(\"");
        r.append(msg.as_str());
        r.append("\")");
        r
    }
}

} // verus!
