//! What the rules read of a file: its name, its path, and its
//! characteristics.

use vstd::prelude::*;
use vstd::string::StrSliceExecFns;
use crate::condition::Facts;
use crate::pattern::{component_start, file_name};
use crate::text::{chars_of, str_eq};

verus! {

/// The characteristics of a file that rules can ask for.
#[derive(Clone, Copy, Debug, PartialEq, Eq, Structural)]
pub struct Cha {
    pub is_dir: bool,
    pub is_hidden: bool,
    pub is_link: bool,
    pub is_orphan: bool,
    pub is_dummy: bool,
    pub is_block: bool,
    pub is_char: bool,
    pub is_fifo: bool,
    pub is_sock: bool,
    pub is_exec: bool,
    pub is_sticky: bool,
}

impl Default for Cha {
    /// The characteristics of a plain file: none of them holds.
    fn default() -> (cha: Cha)
        ensures
            cha == (Cha {
                is_dir: false,
                is_hidden: false,
                is_link: false,
                is_orphan: false,
                is_dummy: false,
                is_block: false,
                is_char: false,
                is_fifo: false,
                is_sock: false,
                is_exec: false,
                is_sticky: false,
            }),
    {
        Cha {
            is_dir: false,
            is_hidden: false,
            is_link: false,
            is_orphan: false,
            is_dummy: false,
            is_block: false,
            is_char: false,
            is_fifo: false,
            is_sock: false,
            is_exec: false,
            is_sticky: false,
        }
    }
}

impl Cha {
    /// The fact that goes by `name`: one of `dir`, `hidden`, `link`,
    /// `orphan`, `dummy`, `block`, `char`, `fifo`, `sock`, `exec`, `sticky`.
    /// No other name is known.
    pub open spec fn named(self, name: Seq<char>) -> Option<bool> {
        if name == "dir"@ {
            Some(self.is_dir)
        } else if name == "hidden"@ {
            Some(self.is_hidden)
        } else if name == "link"@ {
            Some(self.is_link)
        } else if name == "orphan"@ {
            Some(self.is_orphan)
        } else if name == "dummy"@ {
            Some(self.is_dummy)
        } else if name == "block"@ {
            Some(self.is_block)
        } else if name == "char"@ {
            Some(self.is_char)
        } else if name == "fifo"@ {
            Some(self.is_fifo)
        } else if name == "sock"@ {
            Some(self.is_sock)
        } else if name == "exec"@ {
            Some(self.is_exec)
        } else if name == "sticky"@ {
            Some(self.is_sticky)
        } else {
            None
        }
    }
}

impl Facts for Cha {
    open spec fn fact_of(&self, name: Seq<char>) -> Option<bool> {
        self.named(name)
    }

    fn fact(&self, name: &str) -> (r: Option<bool>) {
        if str_eq(name, "dir") {
            Some(self.is_dir)
        } else if str_eq(name, "hidden") {
            Some(self.is_hidden)
        } else if str_eq(name, "link") {
            Some(self.is_link)
        } else if str_eq(name, "orphan") {
            Some(self.is_orphan)
        } else if str_eq(name, "dummy") {
            Some(self.is_dummy)
        } else if str_eq(name, "block") {
            Some(self.is_block)
        } else if str_eq(name, "char") {
            Some(self.is_char)
        } else if str_eq(name, "fifo") {
            Some(self.is_fifo)
        } else if str_eq(name, "sock") {
            Some(self.is_sock)
        } else if str_eq(name, "exec") {
            Some(self.is_exec)
        } else if str_eq(name, "sticky") {
            Some(self.is_sticky)
        } else {
            None
        }
    }
}

/// Where the last `.` of `name` stands, or -1 if it has none.
pub open spec fn last_dot(name: Seq<char>) -> int
    decreases name.len(),
{
    if name.len() == 0 {
        -1
    } else if name.last() == '.' {
        name.len() - 1
    } else {
        last_dot(name.drop_last())
    }
}

/// The last `.` is a `.`, and none stands behind it.
pub proof fn lemma_last_dot(name: Seq<char>)
    ensures
        -1 <= last_dot(name) < name.len(),
        last_dot(name) >= 0 ==> name[last_dot(name)] == '.',
        forall|k: int| last_dot(name) < k < name.len() ==> name[k] != '.',
    decreases name.len(),
{
    if name.len() > 0 && name.last() != '.' {
        let front = name.drop_last();
        lemma_last_dot(front);
        assert forall|k: int| last_dot(name) < k < name.len() implies name[k] != '.' by {
            if k < front.len() {
                assert(front[k] != '.');
            }
        }
    }
}

/// An extension holds no `.`, and the name is a stem that is not empty, a
/// `.`, and the extension. A name without extension has no `.`, or has its
/// only `.` in front, or is `..`.
pub proof fn lemma_extension(path: Seq<char>)
    ensures
        ({
            let name = file_name(path);
            match extension(path) {
                Some(ext) => {
                    &&& !ext.contains('.')
                    &&& name.len() >= ext.len() + 2
                    &&& name == name.take(name.len() - ext.len() - 1) + seq!['.'] + ext
                },
                None => {
                    ||| !name.contains('.')
                    ||| name[0] == '.' && !name.skip(1).contains('.')
                    ||| name == seq!['.', '.']
                },
            }
        }),
{
    let name = file_name(path);
    let dot = last_dot(name);
    lemma_last_dot(name);
    match extension(path) {
        Some(ext) => {
            if ext.contains('.') {
                let k = choose|k: int| 0 <= k < ext.len() && ext[k] == '.';
                assert(name[dot + 1 + k] == '.');
            }
        },
        None => {
            if dot == 0 {
                let rest = name.skip(1);
                if rest.contains('.') {
                    let k = choose|k: int| 0 <= k < rest.len() && rest[k] == '.';
                    assert(name[k + 1] == '.');
                }
            }
        },
    }
}

/// The extension of `path`: what follows the last `.` of its last
/// component. There is none where that component has no `.`, has its only
/// `.` in front, or is `..`.
pub open spec fn extension(path: Seq<char>) -> Option<Seq<char>> {
    let name = file_name(path);
    let dot = last_dot(name);
    if dot <= 0 || name == seq!['.', '.'] {
        None
    } else {
        Some(name.skip(dot + 1))
    }
}

/// A file as the rules see it.
#[derive(Debug, PartialEq, Eq)]
pub struct File {
    /// The name to show and to look up.
    pub name: String,
    /// The path, with `/` between its components.
    pub url: String,
    pub cha: Cha,
}

/// The mathematical model of a [`File`].
pub struct FileView {
    pub name: Seq<char>,
    pub url: Seq<char>,
    pub cha: Cha,
}

impl View for File {
    type V = FileView;

    open spec fn view(&self) -> FileView {
        FileView { name: self.name@, url: self.url@, cha: self.cha }
    }
}

impl File {
    /// The file at `url`, named by the last component of `url`.
    pub fn new(url: &str, cha: Cha) -> (f: File)
        ensures
            f@ == (FileView { name: file_name(url@), url: url@, cha }),
    {
        let chars = chars_of(url);
        let start = component_start(&chars);
        let name = url.substring_char(start, chars.len()).to_owned();
        File { name, url: url.to_owned(), cha }
    }

    /// Whether the file is a directory.
    pub fn is_dir(&self) -> (r: bool)
        ensures
            r == self.cha.is_dir,
    {
        self.cha.is_dir
    }

    /// The extension of the file's path, if it has one.
    pub fn extension(&self) -> (r: Option<String>)
        ensures
            match r {
                Some(ext) => extension(self.url@) == Some(ext@),
                None => extension(self.url@) is None,
            },
    {
        let chars = chars_of(self.url.as_str());
        let n = chars.len();
        let start = component_start(&chars);
        let ghost name = file_name(self.url@);
        // Where the extension would start: behind the last `.` of the name,
        // or at `start` if the name has none.
        let mut dot: usize = n;
        assert(name.take(n - start) == name);
        while dot > start && chars[dot - 1] != '.'
            invariant
                start <= dot <= n,
                n == chars.len(),
                chars@ == self.url@,
                name == chars@.skip(start as int),
                last_dot(name) == last_dot(name.take(dot - start)),
            decreases dot,
        {
            proof {
                assert(name.take(dot - start).drop_last() == name.take(dot - start - 1));
            }
            dot = dot - 1;
        }
        if dot - start <= 1 {
            return None;
        }
        if n - start == 2 && chars[start] == '.' && chars[start + 1] == '.' {
            assert(name == seq!['.', '.']);
            return None;
        }
        Some(self.url.as_str().substring_char(dot, n).to_owned())
    }
}

} // verus!
