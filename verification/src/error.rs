//! The error that reading a configuration value can give.

use vstd::prelude::*;
use vstd::string::StringExecFns;

verus! {

/// What kind of value was expected.
#[derive(Clone, Copy, Debug, PartialEq, Eq, Structural)]
pub enum ErrorKind {
    /// A wrap setting: `yes` or `no`.
    Wrap,
    /// The name of a file type.
    FileType,
    /// A well-formed condition.
    Condition,
    /// A pattern that the matcher can take.
    Pattern,
}

/// A configuration value that could not be read, with the text as written.
#[derive(Debug, PartialEq, Eq)]
pub struct ParseError {
    pub kind: ErrorKind,
    pub value: String,
}

impl ParseError {
    /// What a message starts with, by kind of error.
    pub open spec fn prefix(kind: ErrorKind) -> Seq<char> {
        match kind {
            ErrorKind::Wrap => "Invalid `wrap` value: "@,
            ErrorKind::FileType => "invalid filetype: "@,
            ErrorKind::Condition => "Invalid condition: "@,
            ErrorKind::Pattern => "Invalid pattern: "@,
        }
    }

    /// The error for `value`, which is no value of kind `kind`.
    pub fn new(kind: ErrorKind, value: &str) -> (e: ParseError)
        ensures
            e.kind == kind,
            e.value@ == value@,
    {
        ParseError { kind, value: value.to_owned() }
    }

    /// A message for the user: what was expected, then the rejected text.
    pub fn message(&self) -> (r: String)
        ensures
            r@ == Self::prefix(self.kind) + self.value@,
    {
        let prefix = match self.kind {
            ErrorKind::Wrap => "Invalid `wrap` value: ",
            ErrorKind::FileType => "invalid filetype: ",
            ErrorKind::Condition => "Invalid condition: ",
            ErrorKind::Pattern => "Invalid pattern: ",
        };
        String::from_str(prefix).concat(self.value.as_str())
    }
}

} // verus!
