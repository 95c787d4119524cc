//! Why a predicate could not be turned into canonical text.

use vstd::prelude::*;
use vstd::string::*;

use crate::text::{decimal, push_decimal, push_str, string_of};

verus! {

/// Why a predicate could not be turned into canonical text.
#[derive(Clone, Debug, Eq, PartialEq)]
#[non_exhaustive]
pub enum CanonicalizeError {
    /// The SQL did not parse. The message comes from the parser.
    Parse(String),
    /// The input was longer than the crate will accept. Shortening it may succeed.
    InputTooLong { limit: usize },
    /// The expression nested deeper than the crate will walk. Simplifying it may succeed.
    TooDeep { limit: usize },
    /// The predicate has no canonical spelling the parser can read back unchanged, so
    /// hashing it would risk giving two different predicates one key.
    NotRoundTrippable(String),
    /// Syntax this crate does not canonicalize.
    Unsupported(String),
}

/// A `CanonicalizeError` with its messages as character sequences.
pub enum ErrorView {
    Parse(Seq<char>),
    InputTooLong(usize),
    TooDeep(usize),
    NotRoundTrippable(Seq<char>),
    Unsupported(Seq<char>),
}

impl View for CanonicalizeError {
    type V = ErrorView;

    open spec fn view(&self) -> ErrorView {
        match self {
            CanonicalizeError::Parse(m) => ErrorView::Parse(m@),
            CanonicalizeError::InputTooLong { limit } => ErrorView::InputTooLong(*limit),
            CanonicalizeError::TooDeep { limit } => ErrorView::TooDeep(*limit),
            CanonicalizeError::NotRoundTrippable(m) => ErrorView::NotRoundTrippable(m@),
            CanonicalizeError::Unsupported(m) => ErrorView::Unsupported(m@),
        }
    }
}

/// The outcome of a canonicalization step, with text as character sequences.
pub open spec fn outcome<T: View>(r: Result<T, CanonicalizeError>) -> Result<T::V, ErrorView> {
    match r {
        Ok(t) => Ok(t@),
        Err(e) => Err(e@),
    }
}

/// The message that describes an error, as the error's `Display` would write it.
pub open spec fn error_message(e: ErrorView) -> Seq<char> {
    match e {
        ErrorView::Parse(m) => "SQL parse error: "@ + m,
        ErrorView::InputTooLong(limit) => "SQL input is longer than "@ + decimal(limit as nat)
            + " bytes"@,
        ErrorView::TooDeep(limit) => "Expression nests deeper than "@ + decimal(limit as nat)
            + " levels"@,
        ErrorView::NotRoundTrippable(m) => "Canonical text would not read back as itself: "@ + m,
        ErrorView::Unsupported(m) => "Unsupported SQL: "@ + m,
    }
}

/// The error with the given message, of the `Unsupported` kind.
pub fn unsupported(message: &Vec<char>) -> (e: CanonicalizeError)
    ensures
        e@ == ErrorView::Unsupported(message@),
{
    CanonicalizeError::Unsupported(string_of(message))
}

/// The error with the given message, of the `Unsupported` kind.
pub fn unsupported_str(message: &str) -> (e: CanonicalizeError)
    ensures
        e@ == ErrorView::Unsupported(message@),
{
    CanonicalizeError::Unsupported(String::from_str(message))
}

impl CanonicalizeError {
    /// Describes the error in words.
    pub fn message(&self) -> (m: String)
        ensures
            m@ == error_message(self@),
    {
        let mut out: Vec<char> = Vec::new();
        match self {
            CanonicalizeError::Parse(m) => {
                push_str(&mut out, "SQL parse error: ");
                push_str(&mut out, m.as_str());
            },
            CanonicalizeError::InputTooLong { limit } => {
                push_str(&mut out, "SQL input is longer than ");
                push_decimal(&mut out, *limit as u64);
                push_str(&mut out, " bytes");
            },
            CanonicalizeError::TooDeep { limit } => {
                push_str(&mut out, "Expression nests deeper than ");
                push_decimal(&mut out, *limit as u64);
                push_str(&mut out, " levels");
            },
            CanonicalizeError::NotRoundTrippable(m) => {
                push_str(&mut out, "Canonical text would not read back as itself: ");
                push_str(&mut out, m.as_str());
            },
            CanonicalizeError::Unsupported(m) => {
                push_str(&mut out, "Unsupported SQL: ");
                push_str(&mut out, m.as_str());
            },
        }
        assert(out@ =~= error_message(self@));
        string_of(&out)
    }
}

} // verus!
