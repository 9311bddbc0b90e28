use vstd::prelude::*;
use vstd::string::*;

use crate::text::{push_char, str_eq, to_string};

verus! {

/// The bracket kind of a token group.
#[derive(PartialEq, Eq, Structural, Clone, Copy, Debug)]
pub enum Delim {
    Parenthesis,
    Brace,
    Bracket,
    NoDelim,
}

/// One token of a token stream, holding as plain values what the parsers read:
/// the text of an identifier or a literal, the character of a punctuation mark and
/// whether it is joined to the next one, and for a group its bracket kind, its children
/// and the text that the token printer gives for the whole group.
#[derive(Debug)]
pub enum Tok {
    Ident(String),
    Punct(char, bool),
    Literal(String),
    Group(Delim, Vec<Tok>, String),
}

/// Why a token did not match what a parser expected, or why a parser stopped.
#[derive(Debug)]
pub enum ParseError {
    /// The token stream ended before the parser was done.
    UnexpectedEnd,
    /// A group with another bracket kind than the expected one (expected, found).
    DelimiterMismatch(Delim, Delim),
    /// An identifier with another text than the expected one (expected, found).
    IdentMismatch(String, String),
    /// A punctuation mark other than the expected one (expected, found).
    PunctMismatch(char, char),
    /// A literal with another text than the expected one (expected, found).
    LiteralMismatch(String, String),
    /// A token of another kind than the expected one.
    KindMismatch,
    /// An identifier that may not stand where it was found.
    UnexpectedIdent(String),
    /// A punctuation mark or token that may not stand where it was found.
    UnexpectedToken,
    /// An identifier that names no loaded constant.
    UnknownConst(String),
}

/// The text that the token printer gives for a token.
pub open spec fn tok_text(t: Tok) -> Seq<char> {
    match t {
        Tok::Ident(s) => s@,
        Tok::Punct(c, _) => seq![c],
        Tok::Literal(s) => s@,
        Tok::Group(_, _, s) => s@,
    }
}

/// The text of an empty group of the given bracket kind.
pub open spec fn delim_text(d: Delim) -> Seq<char> {
    match d {
        Delim::Parenthesis => "()"@,
        Delim::Brace => "{}"@,
        Delim::Bracket => "[]"@,
        Delim::NoDelim => ""@,
    }
}

pub open spec fn is_ident(t: Tok) -> bool {
    t is Ident
}

pub open spec fn is_ident_text(t: Tok, s: Seq<char>) -> bool {
    t matches Tok::Ident(a) && a@ == s
}

pub open spec fn is_punct_char(t: Tok, c: char) -> bool {
    t matches Tok::Punct(a, _) && a == c
}

pub open spec fn is_group_with(t: Tok, d: Delim) -> bool {
    t matches Tok::Group(a, _, _) && a == d
}

/// What `does_match_token` gives for a pair of tokens: `Some(text)` when they match.
pub open spec fn token_match_text(actual: Tok, expected: Tok, ignore_value: bool) -> Option<
    Seq<char>,
> {
    match (actual, expected) {
        (Tok::Group(a, _, _), Tok::Group(b, _, _)) => if a == b {
            Some(delim_text(a))
        } else {
            None
        },
        (Tok::Ident(a), Tok::Ident(b)) => if ignore_value || a@ == b@ {
            Some(a@)
        } else {
            None
        },
        (Tok::Punct(a, _), Tok::Punct(b, _)) => if ignore_value || a == b {
            Some(seq![a])
        } else {
            None
        },
        (Tok::Literal(a), Tok::Literal(b)) => if ignore_value || a@ == b@ {
            Some(a@)
        } else {
            None
        },
        _ => None,
    }
}

/// Whether an error is the one that `does_match_token` gives for a pair of tokens that
/// do not match.
pub open spec fn is_mismatch_error(e: ParseError, actual: Tok, expected: Tok) -> bool {
    match (actual, expected) {
        (Tok::Group(a, _, _), Tok::Group(b, _, _)) => e == ParseError::DelimiterMismatch(b, a),
        (Tok::Ident(a), Tok::Ident(b)) => e matches ParseError::IdentMismatch(expected, found)
            && expected@ == b@ && found@ == a@,
        (Tok::Punct(a, _), Tok::Punct(b, _)) => e == ParseError::PunctMismatch(b, a),
        (Tok::Literal(a), Tok::Literal(b)) => e matches ParseError::LiteralMismatch(expected, found)
            && expected@ == b@ && found@ == a@,
        _ => e is KindMismatch,
    }
}

/// A fresh identifier token with the given text.
pub fn expect_ident(s: &str) -> (t: Tok)
    ensures
        t matches Tok::Ident(a) && a@ == s@,
{
    Tok::Ident(to_string(s))
}

/// A fresh punctuation token with the given character.
pub fn expect_punct(c: char) -> (t: Tok)
    ensures
        t == Tok::Punct(c, false),
{
    Tok::Punct(c, false)
}

/// A fresh empty group with the given bracket kind.
pub fn expect_group(d: Delim) -> (t: Tok)
    ensures
        t matches Tok::Group(a, children, text) && a == d && children@.len() == 0 && text@
            == delim_text(d),
{
    let text = match d {
        Delim::Parenthesis => to_string("()"),
        Delim::Brace => to_string("{}"),
        Delim::Bracket => to_string("[]"),
        Delim::NoDelim => String::new(),
    };
    proof {
        reveal_strlit("");
    }
    Tok::Group(d, Vec::new(), text)
}

/// The text of the token, as the token printer gives it.
pub fn token_text(t: &Tok) -> (r: String)
    ensures
        r@ == tok_text(*t),
{
    match t {
        Tok::Ident(s) => s.clone(),
        Tok::Punct(c, _) => {
            let mut out = String::new();
            push_char(&mut out, *c);
            out
        },
        Tok::Literal(s) => s.clone(),
        Tok::Group(_, _, s) => s.clone(),
    }
}

fn delim_string(d: Delim) -> (r: String)
    ensures
        r@ == delim_text(d),
{
    match d {
        Delim::Parenthesis => to_string("()"),
        Delim::Brace => to_string("{}"),
        Delim::Bracket => to_string("[]"),
        Delim::NoDelim => {
            proof {
                reveal_strlit("");
            }
            String::new()
        },
    }
}

/// Checks that `actual` is a token of the same kind as `expected` and, unless `ignore_value`
/// is set, with the same value (for groups, the bracket kind is always compared). On a
/// match it returns the text of `actual` (for a group, the text of an empty group of its
/// bracket kind).
pub fn does_match_token(actual: &Tok, expected: &Tok, ignore_value: bool) -> (r: Result<
    String,
    ParseError,
>)
    ensures
        match token_match_text(*actual, *expected, ignore_value) {
            Some(t) => r matches Ok(s) && s@ == t,
            None => r matches Err(e) && is_mismatch_error(e, *actual, *expected),
        },
{
    match (actual, expected) {
        (Tok::Group(a, _, _), Tok::Group(b, _, _)) => {
            if *a != *b {
                return Err(ParseError::DelimiterMismatch(*b, *a));
            }
            Ok(delim_string(*a))
        },
        (Tok::Ident(a), Tok::Ident(b)) => {
            if ignore_value {
                return Ok(a.clone());
            }
            if !str_eq(a.as_str(), b.as_str()) {
                return Err(ParseError::IdentMismatch(b.clone(), a.clone()));
            }
            Ok(a.clone())
        },
        (Tok::Punct(a, _), Tok::Punct(b, _)) => {
            let mut out = String::new();
            push_char(&mut out, *a);
            if ignore_value {
                return Ok(out);
            }
            if *a != *b {
                return Err(ParseError::PunctMismatch(*b, *a));
            }
            Ok(out)
        },
        (Tok::Literal(a), Tok::Literal(b)) => {
            if ignore_value {
                return Ok(a.clone());
            }
            if !str_eq(a.as_str(), b.as_str()) {
                return Err(ParseError::LiteralMismatch(b.clone(), a.clone()));
            }
            Ok(a.clone())
        },
        _ => Err(ParseError::KindMismatch),
    }
}

/// `does_match_token` under the name the parsers use.
pub fn assert_token_safe(actual: &Tok, expected: &Tok, ignore_value: bool) -> (r: Result<
    String,
    ParseError,
>)
    ensures
        match token_match_text(*actual, *expected, ignore_value) {
            Some(t) => r matches Ok(s) && s@ == t,
            None => r matches Err(e) && is_mismatch_error(e, *actual, *expected),
        },
{
    does_match_token(actual, expected, ignore_value)
}

/// Takes the first token off the front of a stream.
pub fn next_tok(rest: &mut Vec<Tok>) -> (r: Option<Tok>)
    ensures
        old(rest)@.len() == 0 ==> r is None && final(rest)@ == old(rest)@,
        old(rest)@.len() > 0 ==> r == Some(old(rest)@[0]) && final(rest)@ == old(rest)@.subrange(
            1,
            old(rest)@.len() as int,
        ),
{
    if rest.len() == 0 {
        None
    } else {
        let t = rest.remove(0);
        assert(old(rest)@.remove(0) =~= old(rest)@.subrange(1, old(rest)@.len() as int));
        Some(t)
    }
}

} // verus!
