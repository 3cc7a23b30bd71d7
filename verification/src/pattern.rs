//! Glob patterns over paths.
//!
//! In a pattern `*` stands for any run of characters without a `/`, `?` for
//! one character other than `/`, and every other character for itself. A
//! pattern that ends in `/` is for directories, any other for files. A
//! pattern with a `/` inside is held against the whole path, any other
//! against the path's last component. The characters `[ ] { }` are reserved
//! and make a pattern invalid, as does an empty pattern.

use vstd::prelude::*;
use crate::error::{ErrorKind, ParseError};
use crate::text::chars_of;

verus! {

/// Whether `p` from position `i` on matches `t` from position `j` on.
pub open spec fn glob_match_at(p: Seq<char>, i: int, t: Seq<char>, j: int) -> bool
    decreases p.len() - i, t.len() - j,
{
    if i < 0 || j < 0 {
        false
    } else if i >= p.len() {
        j == t.len()
    } else if p[i] == '*' {
        glob_match_at(p, i + 1, t, j) || (j < t.len() && t[j] != '/' && glob_match_at(
            p,
            i,
            t,
            j + 1,
        ))
    } else if p[i] == '?' {
        j < t.len() && t[j] != '/' && glob_match_at(p, i + 1, t, j + 1)
    } else {
        j < t.len() && t[j] == p[i] && glob_match_at(p, i + 1, t, j + 1)
    }
}

/// Whether the pattern text `p` matches the whole of `t`.
pub open spec fn glob_match(p: Seq<char>, t: Seq<char>) -> bool {
    glob_match_at(p, 0, t, 0)
}

/// Where the last component of `path` starts: after its last `/`, or at 0.
pub open spec fn name_start(path: Seq<char>) -> int
    decreases path.len(),
{
    if path.len() == 0 {
        0
    } else if path.last() == '/' {
        path.len() as int
    } else {
        name_start(path.drop_last())
    }
}

/// The last component of `path`: what follows its last `/`.
pub open spec fn file_name(path: Seq<char>) -> Seq<char> {
    path.skip(name_start(path))
}

/// The last component is what is left of the path behind its last `/`: it
/// holds no `/` itself, and what stands before it is empty or ends in `/`.
pub proof fn lemma_file_name(path: Seq<char>)
    ensures
        0 <= name_start(path) <= path.len(),
        path == path.take(name_start(path)) + file_name(path),
        !file_name(path).contains('/'),
        name_start(path) == 0 || path[name_start(path) - 1] == '/',
    decreases path.len(),
{
    if path.len() > 0 && path.last() != '/' {
        let front = path.drop_last();
        lemma_file_name(front);
        let name = file_name(path);
        if name.contains('/') {
            let k = choose|k: int| 0 <= k < name.len() && name[k] == '/';
            assert(file_name(front)[k] == '/');
        }
    }
}

/// The wildcards of a pattern.
pub open spec fn is_wildcard(c: char) -> bool {
    c == '*' || c == '?'
}

/// A pattern without wildcards matches itself and nothing else.
pub proof fn lemma_literal_pattern(p: Seq<char>, t: Seq<char>)
    requires
        forall|k: int| 0 <= k < p.len() ==> !is_wildcard(#[trigger] p[k]),
    ensures
        glob_match(p, t) <==> p == t,
{
    lemma_literal_from(p, t, 0);
    assert(p.skip(0) == p);
    assert(t.skip(0) == t);
}

proof fn lemma_literal_from(p: Seq<char>, t: Seq<char>, i: int)
    requires
        0 <= i <= p.len(),
        forall|k: int| 0 <= k < p.len() ==> !is_wildcard(#[trigger] p[k]),
    ensures
        glob_match_at(p, i, t, i) <==> p.skip(i) == t.skip(i) && i <= t.len(),
    decreases p.len() - i,
{
    if i < p.len() {
        lemma_literal_from(p, t, i + 1);
        if i < t.len() {
            assert(t.skip(i)[0] == t[i]);
            assert(p.skip(i).skip(1) == p.skip(i + 1));
            assert(t.skip(i).skip(1) == t.skip(i + 1));
            if t[i] == p[i] && p.skip(i + 1) == t.skip(i + 1) {
                assert(p.skip(i) == seq![p[i]] + p.skip(i + 1));
                assert(t.skip(i) == seq![t[i]] + t.skip(i + 1));
            }
        }
    } else if i == t.len() {
        assert(p.skip(i) == t.skip(i));
    } else if i < t.len() {
        assert(t.skip(i).len() > 0);
    }
}

/// The pattern `*` matches every text without a `/`, and no other.
pub proof fn lemma_star_pattern(t: Seq<char>)
    ensures
        glob_match(seq!['*'], t) <==> !t.contains('/'),
{
    lemma_star_from(t, 0);
    assert(t.skip(0) == t);
}

proof fn lemma_star_from(t: Seq<char>, j: int)
    requires
        0 <= j <= t.len(),
    ensures
        glob_match_at(seq!['*'], 0, t, j) <==> !t.skip(j).contains('/'),
    decreases t.len() - j,
{
    let p = seq!['*'];
    assert(glob_match_at(p, 1, t, j) <==> j == t.len());
    if j < t.len() {
        lemma_star_from(t, j + 1);
        assert(t.skip(j)[0] == t[j]);
        let here = t.skip(j);
        let rest = t.skip(j + 1);
        if rest.contains('/') {
            let k = choose|k: int| 0 <= k < rest.len() && rest[k] == '/';
            assert(here[k + 1] == '/');
        }
        if here.contains('/') && t[j] != '/' {
            let k = choose|k: int| 0 <= k < here.len() && here[k] == '/';
            assert(rest[k - 1] == '/');
        }
    }
}

/// `s` without the `/` characters that it ends with.
pub open spec fn trim_slashes(s: Seq<char>) -> Seq<char>
    decreases s.len(),
{
    if s.len() > 0 && s.last() == '/' {
        trim_slashes(s.drop_last())
    } else {
        s
    }
}

/// The characters that no pattern may hold.
pub open spec fn is_reserved(c: char) -> bool {
    c == '[' || c == ']' || c == '{' || c == '}'
}

/// What a pattern is: its text without the closing `/`, and whether it had
/// one.
pub struct PatternView {
    pub body: Seq<char>,
    pub is_folder: bool,
}

impl PatternView {
    /// Whether the pattern has a `/` inside and so is held against whole
    /// paths.
    pub open spec fn full_path(self) -> bool {
        self.body.contains('/')
    }

    /// Whether the pattern accepts `path`, which is a directory's if `is_dir`.
    pub open spec fn accepts(self, path: Seq<char>, is_dir: bool) -> bool {
        is_dir == self.is_folder && glob_match(
            self.body,
            if self.full_path() {
                path
            } else {
                file_name(path)
            },
        )
    }
}

/// The pattern that `s` writes down, if it is valid.
pub open spec fn parse_pattern(s: Seq<char>) -> Option<PatternView> {
    let body = trim_slashes(s);
    if body.len() == 0 || exists|i: int| 0 <= i < body.len() && is_reserved(#[trigger] body[i]) {
        None
    } else {
        Some(PatternView { body, is_folder: body.len() < s.len() })
    }
}

/// A compiled pattern.
#[derive(Debug)]
pub struct Pattern {
    body: Vec<char>,
    is_folder: bool,
    full_path: bool,
}

impl View for Pattern {
    type V = PatternView;

    closed spec fn view(&self) -> PatternView {
        PatternView { body: self.body@, is_folder: self.is_folder }
    }
}

impl Pattern {
    /// What holds of every pattern that `from_str` gives.
    #[verifier::type_invariant]
    closed spec fn wf(&self) -> bool {
        self.full_path == self.body@.contains('/')
    }

    /// Reads a pattern. Fails, with the text as given, where the pattern is
    /// empty or holds a reserved character.
    pub fn from_str(s: &str) -> (r: Result<Pattern, ParseError>)
        ensures
            match r {
                Ok(p) => parse_pattern(s@) == Some(p@),
                Err(e) => parse_pattern(s@) is None && e.kind == ErrorKind::Pattern && e.value@
                    == s@,
            },
    {
        let mut body = chars_of(s);
        let total = body.len();
        while body.len() > 0 && body[body.len() - 1] == '/'
            invariant
                trim_slashes(body@) == trim_slashes(s@),
                body.len() <= total,
            decreases body.len(),
        {
            body.pop();
        }
        if body.len() == 0 {
            return Err(ParseError::new(ErrorKind::Pattern, s));
        }
        let mut full_path = false;
        let mut i: usize = 0;
        while i < body.len()
            invariant
                i <= body.len(),
                body@ == trim_slashes(s@),
                forall|k: int| 0 <= k < i ==> !is_reserved(#[trigger] body@[k]),
                full_path == body@.take(i as int).contains('/'),
            decreases body.len() - i,
        {
            let c = body[i];
            if c == '[' || c == ']' || c == '{' || c == '}' {
                return Err(ParseError::new(ErrorKind::Pattern, s));
            }
            if c == '/' {
                assert(body@.take(i + 1)[i as int] == '/');
                full_path = true;
            }
            i = i + 1;
        }
        assert(body@.take(i as int) == body@);
        let is_folder = body.len() < total;
        Ok(Pattern { body, is_folder, full_path })
    }

    /// Whether the pattern accepts `path`, which is a directory's if `is_dir`.
    pub fn match_path(&self, path: &str, is_dir: bool) -> (r: bool)
        ensures
            r == self@.accepts(path@, is_dir),
    {
        let chars = chars_of(path);
        let name = last_component(&chars);
        self.match_chars(&chars, &name, is_dir)
    }

    /// As `match_path`, for a caller that holds the path and its last
    /// component as characters already.
    pub(crate) fn match_chars(&self, path: &Vec<char>, name: &Vec<char>, is_dir: bool) -> (r: bool)
        requires
            name@ == file_name(path@),
        ensures
            r == self@.accepts(path@, is_dir),
    {
        proof {
            use_type_invariant(self);
        }
        if is_dir != self.is_folder {
            false
        } else if self.full_path {
            glob_matches(&self.body, path)
        } else {
            glob_matches(&self.body, name)
        }
    }
}

/// Where the last component of a path starts.
pub(crate) fn component_start(path: &Vec<char>) -> (start: usize)
    ensures
        start == name_start(path@),
        start <= path.len(),
{
    let n = path.len();
    let mut start: usize = n;
    assert(path@.take(n as int) == path@);
    while start > 0 && path[start - 1] != '/'
        invariant
            start <= n,
            n == path.len(),
            name_start(path@) == name_start(path@.take(start as int)),
        decreases start,
    {
        proof {
            assert(path@.take(start as int).drop_last() == path@.take(start - 1));
        }
        start = start - 1;
    }
    start
}

/// The last component of a path.
pub(crate) fn last_component(path: &Vec<char>) -> (name: Vec<char>)
    ensures
        name@ == file_name(path@),
{
    let n = path.len();
    let start = component_start(path);
    let mut name: Vec<char> = Vec::new();
    let mut i: usize = start;
    while i < n
        invariant
            start <= i <= n,
            n == path.len(),
            name@ == path@.subrange(start as int, i as int),
        decreases n - i,
    {
        name.push(path[i]);
        i = i + 1;
    }
    name
}

/// Whether the pattern text `p` matches the whole of `t`.
///
/// Works from the end of the pattern to its start. For the pattern position
/// at hand, `row[j]` says whether the pattern from there on matches `t` from
/// `j` on, and `at_end` says the same of the empty rest of `t`. The row for
/// the position before it is filled into `next`, and the two change places.
fn glob_matches(p: &Vec<char>, t: &Vec<char>) -> (r: bool)
    ensures
        r == glob_match(p@, t@),
{
    let m = p.len();
    let n = t.len();
    let mut row: Vec<bool> = vec![false; n];
    let mut next: Vec<bool> = vec![false; n];
    let mut at_end = true;
    let mut i: usize = m;
    while i > 0
        invariant
            i <= m,
            n == t.len(),
            m == p.len(),
            row.len() == n,
            next.len() == n,
            forall|k: int| 0 <= k < n ==> row@[k] == glob_match_at(p@, i as int, t@, k),
            at_end == glob_match_at(p@, i as int, t@, n as int),
        decreases i,
    {
        i = i - 1;
        let c = p[i];
        let next_end = c == '*' && at_end;
        let mut j: usize = n;
        while j > 0
            invariant
                j <= n,
                i < m,
                n == t.len(),
                m == p.len(),
                c == p@[i as int],
                row.len() == n,
                next.len() == n,
                forall|k: int| 0 <= k < n ==> row@[k] == glob_match_at(p@, i + 1, t@, k),
                at_end == glob_match_at(p@, i + 1, t@, n as int),
                forall|k: int| j <= k < n ==> next@[k] == glob_match_at(p@, i as int, t@, k),
                next_end == glob_match_at(p@, i as int, t@, n as int),
            decreases j,
        {
            j = j - 1;
            let d = t[j];
            let here = if c == '*' {
                row[j] || (d != '/' && if j + 1 < n {
                    next[j + 1]
                } else {
                    next_end
                })
            } else {
                let after = if j + 1 < n {
                    row[j + 1]
                } else {
                    at_end
                };
                if c == '?' {
                    d != '/' && after
                } else {
                    d == c && after
                }
            };
            next.set(j, here);
        }
        std::mem::swap(&mut row, &mut next);
        at_end = next_end;
    }
    if n > 0 {
        row[0]
    } else {
        at_end
    }
}

} // verus!
