//! Errors: what went wrong, and why where that is known.

use vstd::prelude::*;
use vstd::string::*;

use crate::text::opt_view;

verus! {

/// What an error says: the mathematical model of [`Error`].
pub struct Fault {
    pub headline: Seq<char>,
    pub cause: Option<Seq<char>>,
}

/// An error of which only its headline is known.
pub open spec fn plain(headline: Seq<char>) -> Fault {
    Fault { headline, cause: None }
}

/// An error that something else caused.
pub open spec fn because(headline: Seq<char>, cause: Seq<char>) -> Fault {
    Fault { headline, cause: Some(cause) }
}

impl Fault {
    /// The error on one line: the headline, and the cause behind a colon.
    pub open spec fn message(self) -> Seq<char> {
        match self.cause {
            Some(cause) => self.headline + ": "@ + cause,
            None => self.headline,
        }
    }
}

/// What went wrong, and why where that is known.
#[derive(Debug, PartialEq)]
pub struct Error {
    pub headline: String,
    pub cause: Option<String>,
}

impl View for Error {
    type V = Fault;

    open spec fn view(&self) -> Fault {
        Fault { headline: self.headline@, cause: opt_view(self.cause) }
    }
}

impl Error {
    /// An error of which only its headline is known.
    pub fn plain(headline: String) -> (r: Error)
        ensures
            r@ == plain(headline@),
    {
        Error { headline, cause: None }
    }

    /// An error that something else caused.
    pub fn because(headline: String, cause: String) -> (r: Error)
        ensures
            r@ == because(headline@, cause@),
    {
        Error { headline, cause: Some(cause) }
    }

    /// The error on one line: the headline, and the cause behind a colon.
    pub fn message(&self) -> (r: String)
        ensures
            r@ == self@.message(),
    {
        let mut out = self.headline.clone();
        match &self.cause {
            Some(cause) => {
                out.append(": ");
                out.append(cause.as_str());
            },
            None => {},
        }
        out
    }
}

/// An error says its headline first, and then its cause behind a colon if it has one.
pub proof fn errors_name_their_cause(headline: Seq<char>, cause: Seq<char>)
    ensures
        plain(headline).message() == headline,
        because(headline, cause).message() == headline + ": "@ + cause,
        plain(headline).headline == headline && because(headline, cause).headline == headline,
{
}

/// An error is seen with its headline and its cause.
pub proof fn errors_are_seen_whole(e: Error)
    ensures
        e@.headline == e.headline@ && e@.cause == opt_view(e.cause),
{
}

} // verus!
