//! Failures that stop a script.
//!
//! The operations on clips never fail: what they cannot do, they leave
//! undone. Failures arise where the arguments of a call are read, and are
//! handed upward unchanged.

use vstd::prelude::*;
use crate::stage::Value;

verus! {

/// What is known of content that could not be read: the words of the reader.
#[derive(Debug)]
pub struct ContentError {
    pub message: String,
}

/// A failure of a script.
#[derive(Debug)]
pub enum Error {
    /// The chain of prototypes of an object is too long.
    PrototypeRecursionLimit,
    /// The content could not be read.
    InvalidSwf(ContentError),
    /// The script threw a value of its own.
    ThrownValue(Value),
}

impl Error {
    /// Whether the failure ends the script for good. A value that the script
    /// threw can be caught by the script; every other failure cannot.
    pub open spec fn spec_is_halting(&self) -> bool {
        !(self is ThrownValue)
    }

    /// Tells whether the failure ends the script for good.
    pub fn is_halting(&self) -> (halting: bool)
        ensures
            halting == self.spec_is_halting(),
    {
        match self {
            Error::PrototypeRecursionLimit => true,
            Error::InvalidSwf(_) => true,
            Error::ThrownValue(_) => false,
        }
    }

    /// What to tell a reader about the failure.
    pub open spec fn spec_message(&self) -> Seq<char> {
        match self {
            Error::PrototypeRecursionLimit => "Prototype recursion limit has been exceeded"@,
            Error::InvalidSwf(_) => "Couldn't parse SWF."@,
            Error::ThrownValue(_) => "A script has thrown a custom error."@,
        }
    }

    /// Describes the failure in a sentence.
    pub fn message(&self) -> (text: String)
        ensures
            text@ == self.spec_message(),
    {
        match self {
            Error::PrototypeRecursionLimit => String::from_str(
                "Prototype recursion limit has been exceeded",
            ),
            Error::InvalidSwf(_) => String::from_str("Couldn't parse SWF."),
            Error::ThrownValue(_) => String::from_str("A script has thrown a custom error."),
        }
    }
}

impl From<ContentError> for Error {
    fn from(error: ContentError) -> (failure: Error) {
        Error::InvalidSwf(error)
    }
}

impl vstd::std_specs::convert::FromSpecImpl<ContentError> for Error {
    open spec fn obeys_from_spec() -> bool {
        true
    }

    open spec fn from_spec(error: ContentError) -> Error {
        Error::InvalidSwf(error)
    }
}

/// What a call of a script hands back where reading its arguments may have failed.
pub type Outcome = Result<Value, Error>;

/// Whether an outcome ends the script for good.
pub open spec fn spec_halts(outcome: &Outcome) -> bool {
    match outcome {
        Ok(_) => false,
        Err(e) => e.spec_is_halting(),
    }
}

/// Tells whether an outcome ends the script for good.
pub fn halts(outcome: &Outcome) -> (halting: bool)
    ensures
        halting == spec_halts(outcome),
{
    match outcome {
        Ok(_) => false,
        Err(e) => e.is_halting(),
    }
}

} // verus!
