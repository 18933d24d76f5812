//! The library's error type.
use vstd::prelude::*;

verus! {

/// Why a record or request was refused.
#[derive(Debug)]
pub enum Error {
    /// The input is malformed.
    Invalid(String),
    /// The input is well formed but the request is refused.
    Rejected(String),
    /// The request is held back pending missing or stale evidence.
    Quarantined(String),
    /// A journal or persisted record is inconsistent.
    Journal(String),
}

/// The error as text: its kind's prefix, then its message.
pub open spec fn error_text(e: Error) -> Seq<char> {
    match e {
        Error::Invalid(m) => "invalid input: "@ + m@,
        Error::Rejected(m) => "rejected: "@ + m@,
        Error::Quarantined(m) => "quarantined: "@ + m@,
        Error::Journal(m) => "journal error: "@ + m@,
    }
}

impl Error {
    /// The error as text, in the form `kind: message`.
    pub fn message(&self) -> (r: String)
        ensures
            r@ == error_text(*self),
    {
        let (prefix, detail) = match self {
            Error::Invalid(m) => ("invalid input: ", m),
            Error::Rejected(m) => ("rejected: ", m),
            Error::Quarantined(m) => ("quarantined: ", m),
            Error::Journal(m) => ("journal error: ", m),
        };
        let mut r = prefix.to_owned();
        r.append(detail.as_str());
        r
    }
}

pub fn invalid(message: &str) -> (r: Error)
    ensures
        r matches Error::Invalid(m) && m@ == message@,
{
    Error::Invalid(message.to_owned())
}

pub fn rejected(message: &str) -> (r: Error)
    ensures
        r matches Error::Rejected(m) && m@ == message@,
{
    Error::Rejected(message.to_owned())
}

pub fn quarantined(message: &str) -> (r: Error)
    ensures
        r is Quarantined,
{
    Error::Quarantined(message.to_owned())
}

pub fn journal(message: &str) -> (r: Error)
    ensures
        r matches Error::Journal(m) && m@ == message@,
{
    Error::Journal(message.to_owned())
}

} // verus!
