//! The way back from a term to its text, and the proof that the grammar
//! reads that text as the term.

use vstd::prelude::*;
use crate::condition::Expr;
use crate::grammar::{
    is_name_char, lemma_name_len_bound, lex, name_len, parse, parse_and, parse_atom, parse_not,
    parse_or, Token,
};

verus! {

/// A term written out in full: each operand that is no name stands in
/// parentheses.
pub open spec fn written(e: Expr) -> Seq<Token>
    decreases e, 0int,
{
    match e {
        Expr::Term(name) => seq![Token::Name(name)],
        Expr::Not(a) => seq![Token::Not] + operand(*a),
        Expr::And(a, b) => operand(*a) + seq![Token::And] + operand(*b),
        Expr::Or(a, b) => operand(*a) + seq![Token::Or] + operand(*b),
    }
}

/// A term written as an operand: a name as it is, any other term in
/// parentheses.
pub open spec fn operand(e: Expr) -> Seq<Token>
    decreases e, 1int,
{
    match e {
        Expr::Term(name) => seq![Token::Name(name)],
        _ => seq![Token::Open] + written(e) + seq![Token::Close],
    }
}

/// Where `t` holds an operand at `pos`, an atom is read there, and it is the
/// operand's term.
proof fn lemma_reads_operand(e: Expr, t: Seq<Token>, pos: int)
    requires
        0 <= pos,
        pos + operand(e).len() <= t.len(),
        t.subrange(pos, pos + operand(e).len()) == operand(e),
    ensures
        parse_atom(t, pos) == Some((e, pos + operand(e).len())),
        t[pos] != Token::Not,
    decreases e, 1int,
{
    let w = operand(e);
    assert(t[pos] == w[0]) by {
        assert(t.subrange(pos, pos + w.len())[0] == t[pos]);
    }
    match e {
        Expr::Term(name) => {},
        _ => {
            let inner = written(e);
            let end = pos + 1 + inner.len();
            assert(t[end] == w[(inner.len() + 1) as int]) by {
                assert(t.subrange(pos, pos + w.len())[(inner.len() + 1) as int] == t[end]);
            }
            assert(t.subrange(pos + 1, end) == inner) by {
                assert forall|k: int| 0 <= k < inner.len() implies t.subrange(pos + 1, end)[k]
                    == inner[k] by {
                    assert(t.subrange(pos, pos + w.len())[k + 1] == t[pos + 1 + k]);
                }
            }
            lemma_reads_written(e, t, pos + 1);
        },
    }
}

/// Where `t` holds a term written in full at `pos`, and ends there or goes
/// on with a closing parenthesis, the term is read there.
proof fn lemma_reads_written(e: Expr, t: Seq<Token>, pos: int)
    requires
        0 <= pos,
        pos + written(e).len() <= t.len(),
        t.subrange(pos, pos + written(e).len()) == written(e),
        pos + written(e).len() == t.len() || t[pos + written(e).len()] == Token::Close,
    ensures
        parse_or(t, pos) == Some((e, pos + written(e).len())),
    decreases e, 0int,
{
    let w = written(e);
    let end = pos + w.len();
    let part = t.subrange(pos, end);
    match e {
        Expr::Term(name) => {
            assert(t[pos] == part[0]);
            assert(parse_atom(t, pos) == Some((e, pos + 1)));
            assert(parse_not(t, pos) == Some((e, pos + 1)));
            assert(parse_and(t, pos) == Some((e, pos + 1)));
        },
        Expr::Not(a) => {
            let x = operand(*a);
            assert(t[pos] == part[0]);
            assert(t.subrange(pos + 1, end) == x) by {
                assert forall|k: int| 0 <= k < x.len() implies t.subrange(pos + 1, end)[k]
                    == x[k] by {
                    assert(part[k + 1] == t[pos + 1 + k]);
                }
            }
            lemma_reads_operand(*a, t, pos + 1);
            assert(parse_not(t, pos + 1) == Some((*a, end)));
            assert(parse_not(t, pos) == Some((e, end)));
            assert(parse_and(t, pos) == Some((e, end)));
        },
        Expr::And(a, b) => {
            let x = operand(*a);
            let y = operand(*b);
            let mid = pos + x.len();
            assert(t.subrange(pos, mid) == x) by {
                assert forall|k: int| 0 <= k < x.len() implies t.subrange(pos, mid)[k] == x[k] by {
                    assert(part[k] == t[pos + k]);
                }
            }
            assert(t[mid] == Token::And) by {
                assert(part[x.len() as int] == t[mid]);
            }
            assert(t.subrange(mid + 1, end) == y) by {
                assert forall|k: int| 0 <= k < y.len() implies t.subrange(mid + 1, end)[k]
                    == y[k] by {
                    assert(part[x.len() + 1 + k] == t[mid + 1 + k]);
                }
            }
            lemma_reads_operand(*a, t, pos);
            lemma_reads_operand(*b, t, mid + 1);
            assert(parse_not(t, pos) == Some((*a, mid)));
            assert(parse_not(t, mid + 1) == Some((*b, end)));
            assert(parse_and(t, mid + 1) == Some((*b, end)));
            assert(parse_and(t, pos) == Some((e, end)));
        },
        Expr::Or(a, b) => {
            let x = operand(*a);
            let y = operand(*b);
            let mid = pos + x.len();
            assert(t.subrange(pos, mid) == x) by {
                assert forall|k: int| 0 <= k < x.len() implies t.subrange(pos, mid)[k] == x[k] by {
                    assert(part[k] == t[pos + k]);
                }
            }
            assert(t[mid] == Token::Or) by {
                assert(part[x.len() as int] == t[mid]);
            }
            assert(t.subrange(mid + 1, end) == y) by {
                assert forall|k: int| 0 <= k < y.len() implies t.subrange(mid + 1, end)[k]
                    == y[k] by {
                    assert(part[x.len() + 1 + k] == t[mid + 1 + k]);
                }
            }
            lemma_reads_operand(*a, t, pos);
            lemma_reads_operand(*b, t, mid + 1);
            assert(parse_not(t, pos) == Some((*a, mid)));
            assert(parse_and(t, pos) == Some((*a, mid)));
            assert(parse_not(t, mid + 1) == Some((*b, end)));
            assert(parse_and(t, mid + 1) == Some((*b, end)));
            assert(parse_or(t, mid + 1) == Some((*b, end)));
        },
    }
}

/// Every term is read back from its writing in full: the grammar has a
/// writing for each term, and reads it as that term and no other.
pub proof fn lemma_reads_back(e: Expr)
    ensures
        parse_or(written(e), 0) == Some((e, written(e).len() as int)),
{
    let w = written(e);
    assert(w.subrange(0, w.len() as int) == w);
    lemma_reads_written(e, w, 0);
}

/// Whether `name` can be written as a name: it is not empty and is made of
/// name characters alone.
pub open spec fn is_name(name: Seq<char>) -> bool {
    name.len() > 0 && forall|k: int| 0 <= k < name.len() ==> is_name_char(#[trigger] name[k])
}

/// Whether every name of the term can be written as a name.
pub open spec fn well_named(e: Expr) -> bool
    decreases e,
{
    match e {
        Expr::Term(name) => is_name(name),
        Expr::Not(a) => well_named(*a),
        Expr::And(a, b) => well_named(*a) && well_named(*b),
        Expr::Or(a, b) => well_named(*a) && well_named(*b),
    }
}

/// The text of one token.
pub open spec fn spelled(t: Token) -> Seq<char> {
    match t {
        Token::Or => seq!['|'],
        Token::And => seq!['&'],
        Token::Not => seq!['!'],
        Token::Open => seq!['('],
        Token::Close => seq![')'],
        Token::Name(name) => name,
    }
}

/// The text of a list of tokens: each token, and a space behind it.
pub open spec fn spelling(ts: Seq<Token>) -> Seq<char>
    decreases ts.len(),
{
    if ts.len() == 0 {
        Seq::empty()
    } else {
        spelled(ts[0]) + seq![' '] + spelling(ts.drop_first())
    }
}

/// Whether every name among the tokens can be written as a name.
pub open spec fn spellable(ts: Seq<Token>) -> bool {
    forall|i: int| 0 <= i < ts.len() ==> (#[trigger] ts[i] matches Token::Name(name) ==> is_name(name))
}

/// What is read from a position on depends on the text from there on alone.
proof fn lemma_lex_shift(a: Seq<char>, b: Seq<char>, k: int)
    requires
        0 <= k <= b.len(),
    ensures
        lex(a + b, a.len() + k) == lex(b, k),
    decreases b.len() - k,
{
    let s = a + b;
    let at = a.len() + k;
    if k < b.len() {
        assert(s[at] == b[k]);
        lemma_lex_shift(a, b, k + 1);
        if is_name_char(b[k]) {
            let n = name_len(b, k);
            lemma_name_len_bound(b, k);
            lemma_name_len_shift(a, b, k);
            assert(s.subrange(at, at + n) == b.subrange(k, k + n));
            lemma_lex_shift(a, b, k + n);
        }
    }
}

/// How far a name runs depends on the text from its start on alone.
proof fn lemma_name_len_shift(a: Seq<char>, b: Seq<char>, k: int)
    requires
        0 <= k <= b.len(),
    ensures
        name_len(a + b, a.len() + k) == name_len(b, k),
    decreases b.len() - k,
{
    if k < b.len() {
        assert((a + b)[a.len() + k] == b[k]);
        lemma_name_len_shift(a, b, k + 1);
    }
}

/// A name with a space behind it is read as one run.
proof fn lemma_name_run(name: Seq<char>, rest: Seq<char>, k: int)
    requires
        is_name(name),
        0 <= k <= name.len(),
    ensures
        name_len(name + seq![' '] + rest, k) == name.len() - k,
    decreases name.len() - k,
{
    let s = name + seq![' '] + rest;
    if k < name.len() {
        assert(s[k] == name[k]);
        lemma_name_run(name, rest, k + 1);
    } else {
        assert(s[k] == ' ');
    }
}

/// Tokens are read back from their text.
pub proof fn lemma_lex_spelling(ts: Seq<Token>)
    requires
        spellable(ts),
    ensures
        lex(spelling(ts), 0) == ts,
    decreases ts.len(),
{
    if ts.len() > 0 {
        let first = ts[0];
        let rest = ts.drop_first();
        let word = spelled(first);
        let head = word + seq![' '];
        let tail = spelling(rest);
        let s = spelling(ts);
        assert(s == head + tail);
        assert forall|i: int| 0 <= i < rest.len() implies (#[trigger] rest[i] matches Token::Name(
            name,
        ) ==> is_name(name)) by {
            assert(rest[i] == ts[i + 1]);
        }
        lemma_lex_spelling(rest);
        lemma_lex_shift(head, tail, 0);
        assert(lex(s, head.len() as int) == rest);
        assert(s[word.len() as int] == ' ');
        assert(lex(s, word.len() as int) == rest);
        match first {
            Token::Name(name) => {
                lemma_name_run(name, tail, 0);
                assert(s[0] == name[0]);
                assert(is_name_char(name[0]));
                assert(s.subrange(0, name.len() as int) == name);
                assert(lex(s, 0) == seq![first] + rest);
            },
            _ => {
                assert(s[0] == word[0]);
                assert(lex(s, 0) == seq![first] + rest);
            },
        }
        assert(seq![first] + rest == ts);
    }
}

/// The names among the tokens of a well-named term can be written.
proof fn lemma_spellable(e: Expr)
    requires
        well_named(e),
    ensures
        spellable(written(e)),
        spellable(operand(e)),
    decreases e,
{
    match e {
        Expr::Term(name) => {},
        Expr::Not(a) => {
            lemma_spellable(*a);
        },
        Expr::And(a, b) => {
            lemma_spellable(*a);
            lemma_spellable(*b);
        },
        Expr::Or(a, b) => {
            lemma_spellable(*a);
            lemma_spellable(*b);
        },
    }
}

/// Every term with names that can be written has a text, and that text is
/// read as the term itself.
pub proof fn lemma_parse_spelling(e: Expr)
    requires
        well_named(e),
    ensures
        parse(spelling(written(e))) == Some(e),
{
    lemma_spellable(e);
    lemma_lex_spelling(written(e));
    lemma_reads_back(e);
}

} // verus!
