//! Settings of the preview pane.

use vstd::prelude::*;
use crate::error::{ErrorKind, ParseError};
use crate::text::str_eq;

verus! {

/// Whether long lines of a preview are wrapped.
#[derive(Clone, Copy, Debug, PartialEq, Eq, Structural)]
pub enum PreviewWrap {
    No,
    Yes,
}

impl PreviewWrap {
    /// The setting that `s` names: `no` or `yes`, in lower case, and nothing
    /// else.
    pub open spec fn parse(s: Seq<char>) -> Option<PreviewWrap> {
        if s == "no"@ {
            Some(PreviewWrap::No)
        } else if s == "yes"@ {
            Some(PreviewWrap::Yes)
        } else {
            None
        }
    }

    /// Reads the setting. Fails, with the text as given, on anything but
    /// `no` and `yes`.
    pub fn from_str(s: &str) -> (r: Result<PreviewWrap, ParseError>)
        ensures
            match r {
                Ok(wrap) => Self::parse(s@) == Some(wrap),
                Err(e) => Self::parse(s@) is None && e.kind == ErrorKind::Wrap && e.value@ == s@,
            },
    {
        if str_eq(s, "no") {
            Ok(PreviewWrap::No)
        } else if str_eq(s, "yes") {
            Ok(PreviewWrap::Yes)
        } else {
            Err(ParseError::new(ErrorKind::Wrap, s))
        }
    }

    /// Reads the setting from an owned string, as `from_str` does.
    pub fn try_from(value: String) -> (r: Result<PreviewWrap, ParseError>)
        ensures
            match r {
                Ok(wrap) => Self::parse(value@) == Some(wrap),
                Err(e) => Self::parse(value@) is None && e.kind == ErrorKind::Wrap && e.value@
                    == value@,
            },
    {
        Self::from_str(value.as_str())
    }
}

impl std::str::FromStr for PreviewWrap {
    type Err = ParseError;

    fn from_str(s: &str) -> (r: Result<PreviewWrap, ParseError>)
        ensures
            match r {
                Ok(wrap) => PreviewWrap::parse(s@) == Some(wrap),
                Err(e) => PreviewWrap::parse(s@) is None && e.kind == ErrorKind::Wrap && e.value@
                    == s@,
            },
    {
        PreviewWrap::from_str(s)
    }
}

} // verus!
