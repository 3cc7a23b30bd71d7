//! File types that a theme can ask for.

use vstd::prelude::*;
use crate::error::{ErrorKind, ParseError};
use crate::fs::Cha;
use crate::text::str_eq;

verus! {

/// A file type, or none in particular.
#[derive(Clone, Copy, Debug, PartialEq, Eq, Structural)]
pub enum Is {
    /// No type in particular: every file is of it.
    Any,
    Hidden,
    Link,
    Orphan,
    Dummy,
    Block,
    Char,
    Fifo,
    Sock,
    Exec,
    Sticky,
}

impl Default for Is {
    fn default() -> (r: Is)
        ensures
            r == Is::Any,
    {
        Is::Any
    }
}

impl Is {
    /// The file type that `s` names. The names are in lower case; `Any`
    /// has no name.
    pub open spec fn parse(s: Seq<char>) -> Option<Is> {
        if s == "hidden"@ {
            Some(Is::Hidden)
        } else if s == "link"@ {
            Some(Is::Link)
        } else if s == "orphan"@ {
            Some(Is::Orphan)
        } else if s == "dummy"@ {
            Some(Is::Dummy)
        } else if s == "block"@ {
            Some(Is::Block)
        } else if s == "char"@ {
            Some(Is::Char)
        } else if s == "fifo"@ {
            Some(Is::Fifo)
        } else if s == "sock"@ {
            Some(Is::Sock)
        } else if s == "exec"@ {
            Some(Is::Exec)
        } else if s == "sticky"@ {
            Some(Is::Sticky)
        } else {
            None
        }
    }

    /// Whether a file with the characteristics `cha` is of this type. Every
    /// file is of the type `Any`.
    pub open spec fn holds(self, cha: Cha) -> bool {
        match self {
            Is::Any => true,
            Is::Hidden => cha.is_hidden,
            Is::Link => cha.is_link,
            Is::Orphan => cha.is_orphan,
            Is::Dummy => cha.is_dummy,
            Is::Block => cha.is_block,
            Is::Char => cha.is_char,
            Is::Fifo => cha.is_fifo,
            Is::Sock => cha.is_sock,
            Is::Exec => cha.is_exec,
            Is::Sticky => cha.is_sticky,
        }
    }

    /// Reads a file type by its name. Fails, with the text as given, on any
    /// other text.
    pub fn from_str(s: &str) -> (r: Result<Is, ParseError>)
        ensures
            match r {
                Ok(is) => Self::parse(s@) == Some(is),
                Err(e) => Self::parse(s@) is None && e.kind == ErrorKind::FileType && e.value@
                    == s@,
            },
    {
        if str_eq(s, "hidden") {
            Ok(Is::Hidden)
        } else if str_eq(s, "link") {
            Ok(Is::Link)
        } else if str_eq(s, "orphan") {
            Ok(Is::Orphan)
        } else if str_eq(s, "dummy") {
            Ok(Is::Dummy)
        } else if str_eq(s, "block") {
            Ok(Is::Block)
        } else if str_eq(s, "char") {
            Ok(Is::Char)
        } else if str_eq(s, "fifo") {
            Ok(Is::Fifo)
        } else if str_eq(s, "sock") {
            Ok(Is::Sock)
        } else if str_eq(s, "exec") {
            Ok(Is::Exec)
        } else if str_eq(s, "sticky") {
            Ok(Is::Sticky)
        } else {
            Err(ParseError::new(ErrorKind::FileType, s))
        }
    }

    /// Reads a file type from an owned string, as `from_str` does.
    pub fn try_from(s: String) -> (r: Result<Is, ParseError>)
        ensures
            match r {
                Ok(is) => Self::parse(s@) == Some(is),
                Err(e) => Self::parse(s@) is None && e.kind == ErrorKind::FileType && e.value@
                    == s@,
            },
    {
        Self::from_str(s.as_str())
    }

    /// Whether a file with the characteristics `cha` is of this type.
    pub fn check(&self, cha: &Cha) -> (r: bool)
        ensures
            r == self.holds(*cha),
    {
        match self {
            Is::Any => true,
            Is::Hidden => cha.is_hidden,
            Is::Link => cha.is_link,
            Is::Orphan => cha.is_orphan,
            Is::Dummy => cha.is_dummy,
            Is::Block => cha.is_block,
            Is::Char => cha.is_char,
            Is::Fifo => cha.is_fifo,
            Is::Sock => cha.is_sock,
            Is::Exec => cha.is_exec,
            Is::Sticky => cha.is_sticky,
        }
    }
}

impl std::str::FromStr for Is {
    type Err = ParseError;

    fn from_str(s: &str) -> (r: Result<Is, ParseError>)
        ensures
            match r {
                Ok(is) => Is::parse(s@) == Some(is),
                Err(e) => Is::parse(s@) is None && e.kind == ErrorKind::FileType && e.value@ == s@,
            },
    {
        Is::from_str(s)
    }
}

} // verus!
