use vstd::prelude::*;

verus! {

/// The errors that command handlers report back to the chat.
#[derive(Debug, Clone, PartialEq, Eq)]
pub enum Error {
    ContextDisposed,
    InvalidCommandUsage(String),
    InvalidOption(String),
    CommandNotFound(String),
    OptionNotSpecified(String),
    UnknownOption(String),
    NotFound(String),
    IsEmpty(String),
}

/// The text of an error.
pub open spec fn message_of(e: Error) -> Seq<char> {
    match e {
        Error::ContextDisposed => "context is disposed"@,
        Error::InvalidCommandUsage(s) => "usage: "@ + s@,
        Error::InvalidOption(s) => "invalid "@ + s@,
        Error::CommandNotFound(s) => "command "@ + s@ + " not found"@,
        Error::OptionNotSpecified(s) => s@ + " not specified"@,
        Error::UnknownOption(s) => "unknown "@ + s@,
        Error::NotFound(s) => s@ + " not found"@,
        Error::IsEmpty(s) => s@ + " is empty"@,
    }
}

impl Error {
    /// The text shown for this error.
    pub fn message(&self) -> (r: String)
        ensures
            r@ == message_of(*self),
    {
        match self {
            Error::ContextDisposed => String::from_str("context is disposed"),
            Error::InvalidCommandUsage(s) => String::from_str("usage: ").concat(s.as_str()),
            Error::InvalidOption(s) => String::from_str("invalid ").concat(s.as_str()),
            Error::CommandNotFound(s) => String::from_str("command ").concat(s.as_str()).concat(
                " not found",
            ),
            Error::OptionNotSpecified(s) => s.clone().concat(" not specified"),
            Error::UnknownOption(s) => String::from_str("unknown ").concat(s.as_str()),
            Error::NotFound(s) => s.clone().concat(" not found"),
            Error::IsEmpty(s) => s.clone().concat(" is empty"),
        }
    }
}

} // verus!
