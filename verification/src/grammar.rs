//! The written form of conditions: tokens, and the grammar over them.
//!
//! ```text
//! or   := and ( '|' or )?
//! and  := not ( '&' and )?
//! not  := '!' not | atom
//! atom := NAME | '(' or ')'
//! ```
//!
//! A name is a maximal run of characters that are neither white space nor
//! one of `| & ! ( )`. White space separates tokens and is otherwise ignored.

use vstd::prelude::*;
use vstd::string::StrSliceExecFns;
use crate::condition::{Condition, Expr};
use crate::error::{ErrorKind, ParseError};
use crate::text::chars_of;

verus! {

/// A token of the written form.
pub enum Token {
    Or,
    And,
    Not,
    Open,
    Close,
    Name(Seq<char>),
}

/// ASCII white space: space, tab, line feed, form feed, carriage return.
pub open spec fn is_space(c: char) -> bool {
    c == ' ' || c == '\t' || c == '\n' || c == '\x0C' || c == '\r'
}

/// The characters that are tokens by themselves.
pub open spec fn is_operator(c: char) -> bool {
    c == '|' || c == '&' || c == '!' || c == '(' || c == ')'
}

/// The characters that names are made of.
pub open spec fn is_name_char(c: char) -> bool {
    !is_space(c) && !is_operator(c)
}

/// The length of the longest run of name characters of `s` that starts at
/// `from`.
pub open spec fn name_len(s: Seq<char>, from: int) -> nat
    decreases s.len() - from,
{
    if 0 <= from < s.len() && is_name_char(s[from]) {
        1 + name_len(s, from + 1)
    } else {
        0
    }
}

/// A run of name characters ends within the text.
pub proof fn lemma_name_len_bound(s: Seq<char>, from: int)
    requires
        0 <= from <= s.len(),
    ensures
        from + name_len(s, from) <= s.len(),
        from < s.len() && is_name_char(s[from]) ==> name_len(s, from) >= 1,
        forall|i: int| from <= i < from + name_len(s, from) ==> is_name_char(#[trigger] s[i]),
        from + name_len(s, from) < s.len() ==> !is_name_char(s[from + name_len(s, from)]),
    decreases s.len() - from,
{
    if from < s.len() && is_name_char(s[from]) {
        lemma_name_len_bound(s, from + 1);
    }
}

/// The tokens of `s` from position `from` on.
pub open spec fn lex(s: Seq<char>, from: int) -> Seq<Token>
    decreases s.len() - from,
{
    if from < 0 || from >= s.len() {
        Seq::empty()
    } else if is_space(s[from]) {
        lex(s, from + 1)
    } else if s[from] == '|' {
        seq![Token::Or] + lex(s, from + 1)
    } else if s[from] == '&' {
        seq![Token::And] + lex(s, from + 1)
    } else if s[from] == '!' {
        seq![Token::Not] + lex(s, from + 1)
    } else if s[from] == '(' {
        seq![Token::Open] + lex(s, from + 1)
    } else if s[from] == ')' {
        seq![Token::Close] + lex(s, from + 1)
    } else {
        let n = name_len(s, from);
        proof {
            lemma_name_len_bound(s, from);
        }
        seq![Token::Name(s.subrange(from, from + n))] + lex(s, from + n)
    }
}

/// An `or` at position `pos` of `t`: the term read, and the position after it.
pub open spec fn parse_or(t: Seq<Token>, pos: int) -> Option<(Expr, int)>
    decreases t.len() - pos, 3int,
{
    match parse_and(t, pos) {
        Some((left, p)) => if pos <= p < t.len() && t[p] == Token::Or {
            match parse_or(t, p + 1) {
                Some((right, q)) => Some((Expr::Or(Box::new(left), Box::new(right)), q)),
                None => None,
            }
        } else {
            Some((left, p))
        },
        None => None,
    }
}

/// An `and` at position `pos` of `t`.
pub open spec fn parse_and(t: Seq<Token>, pos: int) -> Option<(Expr, int)>
    decreases t.len() - pos, 2int,
{
    match parse_not(t, pos) {
        Some((left, p)) => if pos <= p < t.len() && t[p] == Token::And {
            match parse_and(t, p + 1) {
                Some((right, q)) => Some((Expr::And(Box::new(left), Box::new(right)), q)),
                None => None,
            }
        } else {
            Some((left, p))
        },
        None => None,
    }
}

/// A `not` at position `pos` of `t`.
pub open spec fn parse_not(t: Seq<Token>, pos: int) -> Option<(Expr, int)>
    decreases t.len() - pos, 1int,
{
    if 0 <= pos < t.len() && t[pos] == Token::Not {
        match parse_not(t, pos + 1) {
            Some((inner, p)) => Some((Expr::Not(Box::new(inner)), p)),
            None => None,
        }
    } else {
        parse_atom(t, pos)
    }
}

/// An `atom` at position `pos` of `t`.
pub open spec fn parse_atom(t: Seq<Token>, pos: int) -> Option<(Expr, int)>
    decreases t.len() - pos, 0int,
{
    if 0 <= pos < t.len() {
        match t[pos] {
            Token::Name(name) => Some((Expr::Term(name), pos + 1)),
            Token::Open => match parse_or(t, pos + 1) {
                Some((inner, p)) => if 0 <= p < t.len() && t[p] == Token::Close {
                    Some((inner, p + 1))
                } else {
                    None
                },
                None => None,
            },
            _ => None,
        }
    } else {
        None
    }
}

/// The term that `s` is the written form of, if it is one: its tokens must
/// make up exactly one `or`.
pub open spec fn parse(s: Seq<char>) -> Option<Expr> {
    let t = lex(s, 0);
    match parse_or(t, 0) {
        Some((e, p)) => if p == t.len() {
            Some(e)
        } else {
            None
        },
        None => None,
    }
}

/// A token as the parser holds it.
enum Tok {
    Or,
    And,
    Not,
    Open,
    Close,
    Name(String),
}

impl Tok {
    /// The token that this one stands for.
    spec fn model(&self) -> Token {
        match self {
            Tok::Or => Token::Or,
            Tok::And => Token::And,
            Tok::Not => Token::Not,
            Tok::Open => Token::Open,
            Tok::Close => Token::Close,
            Tok::Name(name) => Token::Name(name@),
        }
    }
}

/// The tokens that a list of tokens stands for.
spec fn models(toks: Seq<Tok>) -> Seq<Token> {
    Seq::new(toks.len(), |i: int| toks[i].model())
}

/// Whether a parser's answer is the one that the grammar gives.
spec fn agrees(r: Option<(Condition, usize)>, m: Option<(Expr, int)>) -> bool {
    match (r, m) {
        (Some((c, p)), Some((e, q))) => c@ == e && p == q,
        (None, None) => true,
        _ => false,
    }
}

/// Whether `c` is white space.
fn space(c: char) -> (r: bool)
    ensures
        r == is_space(c),
{
    c == ' ' || c == '\t' || c == '\n' || c == '\x0C' || c == '\r'
}

/// Whether `c` is a token by itself.
fn operator(c: char) -> (r: bool)
    ensures
        r == is_operator(c),
{
    c == '|' || c == '&' || c == '!' || c == '(' || c == ')'
}

/// The tokens of `s`.
fn tokenize(s: &str) -> (toks: Vec<Tok>)
    ensures
        models(toks@) == lex(s@, 0),
{
    let chars = chars_of(s);
    let n = chars.len();
    let mut toks: Vec<Tok> = Vec::new();
    let mut i: usize = 0;
    while i < n
        invariant
            chars@ == s@,
            n == chars.len(),
            i <= n,
            models(toks@) + lex(s@, i as int) == lex(s@, 0),
        decreases n - i,
    {
        let c = chars[i];
        if space(c) {
            i = i + 1;
        } else if operator(c) {
            let tok = if c == '|' {
                Tok::Or
            } else if c == '&' {
                Tok::And
            } else if c == '!' {
                Tok::Not
            } else if c == '(' {
                Tok::Open
            } else {
                Tok::Close
            };
            toks.push(tok);
            i = i + 1;
        } else {
            let mut j: usize = i + 1;
            while j < n && !space(chars[j]) && !operator(chars[j])
                invariant
                    chars@ == s@,
                    n == chars.len(),
                    i < j <= n,
                    name_len(s@, i as int) == (j - i) + name_len(s@, j as int),
                decreases n - j,
            {
                j = j + 1;
            }
            let name = s.substring_char(i, j).to_owned();
            let tok = Tok::Name(name);
            toks.push(tok);
            i = j;
        }
    }
    toks
}

/// Reads an `or` at `pos`.
fn read_or(toks: &Vec<Tok>, pos: usize) -> (r: Option<(Condition, usize)>)
    requires
        pos <= toks.len(),
    ensures
        agrees(r, parse_or(models(toks@), pos as int)),
        r matches Some((_, p)) ==> pos < p <= toks.len(),
    decreases toks.len() - pos, 3int,
{
    match read_and(toks, pos) {
        Some((left, p)) => {
            if p < toks.len() && matches!(toks[p], Tok::Or) {
                match read_or(toks, p + 1) {
                    Some((right, q)) => Some((Condition::Or(Box::new(left), Box::new(right)), q)),
                    None => None,
                }
            } else {
                Some((left, p))
            }
        },
        None => None,
    }
}

/// Reads an `and` at `pos`.
fn read_and(toks: &Vec<Tok>, pos: usize) -> (r: Option<(Condition, usize)>)
    requires
        pos <= toks.len(),
    ensures
        agrees(r, parse_and(models(toks@), pos as int)),
        r matches Some((_, p)) ==> pos < p <= toks.len(),
    decreases toks.len() - pos, 2int,
{
    match read_not(toks, pos) {
        Some((left, p)) => {
            if p < toks.len() && matches!(toks[p], Tok::And) {
                match read_and(toks, p + 1) {
                    Some((right, q)) => Some((Condition::And(Box::new(left), Box::new(right)), q)),
                    None => None,
                }
            } else {
                Some((left, p))
            }
        },
        None => None,
    }
}

/// Reads a `not` at `pos`.
fn read_not(toks: &Vec<Tok>, pos: usize) -> (r: Option<(Condition, usize)>)
    requires
        pos <= toks.len(),
    ensures
        agrees(r, parse_not(models(toks@), pos as int)),
        r matches Some((_, p)) ==> pos < p <= toks.len(),
    decreases toks.len() - pos, 1int,
{
    if pos < toks.len() && matches!(toks[pos], Tok::Not) {
        match read_not(toks, pos + 1) {
            Some((inner, p)) => Some((Condition::Not(Box::new(inner)), p)),
            None => None,
        }
    } else {
        read_atom(toks, pos)
    }
}

/// Reads an `atom` at `pos`.
fn read_atom(toks: &Vec<Tok>, pos: usize) -> (r: Option<(Condition, usize)>)
    requires
        pos <= toks.len(),
    ensures
        agrees(r, parse_atom(models(toks@), pos as int)),
        r matches Some((_, p)) ==> pos < p <= toks.len(),
    decreases toks.len() - pos, 0int,
{
    if pos >= toks.len() {
        return None;
    }
    match &toks[pos] {
        Tok::Name(name) => Some((Condition::Term(name.clone()), pos + 1)),
        Tok::Open => match read_or(toks, pos + 1) {
            Some((inner, p)) => {
                if p < toks.len() && matches!(toks[p], Tok::Close) {
                    Some((inner, p + 1))
                } else {
                    None
                }
            },
            None => None,
        },
        _ => None,
    }
}

impl Condition {
    /// Reads a condition from its written form. Fails, with the text as
    /// given, where the text is not one well-formed condition.
    pub fn from_str(s: &str) -> (r: Result<Condition, ParseError>)
        ensures
            match r {
                Ok(c) => parse(s@) == Some(c@),
                Err(e) => parse(s@) is None && e.kind == ErrorKind::Condition && e.value@ == s@,
            },
    {
        let toks = tokenize(s);
        match read_or(&toks, 0) {
            Some((c, p)) => {
                if p == toks.len() {
                    Ok(c)
                } else {
                    Err(ParseError::new(ErrorKind::Condition, s))
                }
            },
            None => Err(ParseError::new(ErrorKind::Condition, s)),
        }
    }
}

} // verus!
