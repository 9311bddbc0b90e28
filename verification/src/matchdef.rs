use vstd::prelude::*;
use vstd::string::*;

use crate::attributes::{const_lookup, ConstTable};
use crate::text::{push_char, str_eq, to_string};
use crate::tokens::{
    assert_token_safe, expect_group, expect_ident, expect_punct, is_group_with, is_ident,
    is_ident_text, is_punct_char, next_tok, Delim, ParseError, Tok,
};

verus! {

/// A statement `const NAME: () = match (..) { .. };` split into its parts, with the strings
/// it matches against and the (pattern, result) string tuples of its arms.
#[derive(Debug)]
pub struct MatchDef {
    pub pub_ident: Option<Tok>,
    pub const_ident: Tok,
    pub statement_name: String,
    pub statement_name_ident: Tok,
    pub punct_ident: Tok,
    pub type_ident: Tok,
    pub equals_ident: Tok,
    pub match_ident: Tok,
    pub match_parens_ident: Tok,
    pub match_body: Tok,
    pub semicolon_ident: Option<Tok>,
    pub match_against: Vec<String>,
    pub match_statements: Vec<(Vec<String>, Vec<String>)>,
}

/// The text with every surrounding pair of double quotes taken off, pair after pair.
pub open spec fn strip_all_quote_pairs(s: Seq<char>) -> Seq<char>
    decreases s.len(),
{
    if s.len() >= 1 && s[0] == '"' && s.last() == '"' {
        if s.len() == 1 {
            Seq::empty()
        } else {
            strip_all_quote_pairs(s.subrange(1, s.len() - 1))
        }
    } else {
        s
    }
}

/// The strings of a tuple group's contents, read from index `i` on. A literal gives its
/// text without surrounding quotes; identifiers joined by `:` name a constant, which is
/// looked up when the next punctuation mark other than `:` ends the name (a name at the
/// very end is dropped). One punctuation mark after a literal is skipped; other groups
/// are refused.
pub open spec fn tuple_run(
    s: Seq<Tok>,
    i: int,
    out: Seq<Seq<char>>,
    expect_punct: bool,
    last: Option<Seq<char>>,
    consts: Seq<(String, String)>,
) -> Option<Seq<Seq<char>>>
    decreases s.len() - i,
{
    if i < 0 || i >= s.len() {
        Some(out)
    } else {
        match s[i] {
            Tok::Punct(p, _) => match last {
                Some(l) => {
                    if p == ':' {
                        tuple_run(s, i + 1, out, expect_punct, Some(l.push(':')), consts)
                    } else {
                        match const_lookup(consts, l) {
                            Some(v) => tuple_run(s, i + 1, out.push(v), expect_punct, None, consts),
                            None => None,
                        }
                    }
                },
                None => tuple_run(s, i + 1, out, false, None, consts),
            },
            Tok::Literal(a) => tuple_run(
                s,
                i + 1,
                out.push(strip_all_quote_pairs(a@)),
                true,
                last,
                consts,
            ),
            Tok::Ident(a) => match last {
                Some(l) => tuple_run(s, i + 1, out, expect_punct, Some(l + a@), consts),
                None => tuple_run(s, i + 1, out, expect_punct, Some(a@), consts),
            },
            Tok::Group(_, _, _) => None,
        }
    }
}

/// The strings of a tuple given as a token sequence.
pub open spec fn string_tuple(s: Seq<Tok>, consts: Seq<(String, String)>) -> Option<
    Seq<Seq<char>>,
> {
    tuple_run(s, 0, Seq::empty(), false, None, consts)
}

/// The strings of a `( .. )` tuple token.
pub open spec fn string_tuple_of_group(t: Tok, consts: Seq<(String, String)>) -> Option<
    Seq<Seq<char>>,
> {
    match t {
        Tok::Group(d, children, _) => if d == Delim::Parenthesis {
            string_tuple(children@, consts)
        } else {
            None
        },
        _ => None,
    }
}

/// The arms `(..) => (..),` of a match body read from index `i` on: each arm is a pair of
/// string tuples. Commas are skipped, `=` is allowed after a first tuple and `>` after
/// that `=`; anything else that is not a `( .. )` group is refused.
pub open spec fn arms_run(
    s: Seq<Tok>,
    i: int,
    out: Seq<(Seq<Seq<char>>, Seq<Seq<char>>)>,
    first: Option<Seq<Seq<char>>>,
    expect_equals: bool,
    expect_arrow: bool,
    consts: Seq<(String, String)>,
) -> Option<Seq<(Seq<Seq<char>>, Seq<Seq<char>>)>>
    decreases s.len() - i,
{
    if i < 0 || i >= s.len() {
        Some(out)
    } else {
        match s[i] {
            Tok::Group(d, _, _) => {
                if d != Delim::Parenthesis {
                    None
                } else {
                    match string_tuple_of_group(s[i], consts) {
                        None => None,
                        Some(a) => match first {
                            Some(f) => arms_run(
                                s,
                                i + 1,
                                out.push((f, a)),
                                None,
                                expect_equals,
                                expect_arrow,
                                consts,
                            ),
                            None => arms_run(s, i + 1, out, Some(a), true, expect_arrow, consts),
                        },
                    }
                }
            },
            Tok::Punct(c, _) => {
                if c == ',' {
                    arms_run(s, i + 1, out, first, expect_equals, expect_arrow, consts)
                } else if expect_equals && c == '=' {
                    arms_run(s, i + 1, out, first, false, true, consts)
                } else if expect_arrow && c == '>' {
                    arms_run(s, i + 1, out, first, false, false, consts)
                } else {
                    None
                }
            },
            _ => None,
        }
    }
}

/// The arms of a match body token.
pub open spec fn arms_of_body(t: Tok, consts: Seq<(String, String)>) -> Option<
    Seq<(Seq<Seq<char>>, Seq<Seq<char>>)>,
> {
    match t {
        Tok::Group(_, children, _) => arms_run(
            children@,
            0,
            Seq::empty(),
            None,
            false,
            false,
            consts,
        ),
        _ => None,
    }
}

pub open spec fn strs_view(v: Seq<String>) -> Seq<Seq<char>> {
    Seq::new(v.len(), |i: int| v[i]@)
}

pub open spec fn arms_view(v: Seq<(Vec<String>, Vec<String>)>) -> Seq<
    (Seq<Seq<char>>, Seq<Seq<char>>),
> {
    Seq::new(v.len(), |i: int| (strs_view(v[i].0@), strs_view(v[i].1@)))
}

proof fn lemma_strs_push(v: Seq<String>, s: String)
    ensures
        strs_view(v.push(s)) == strs_view(v).push(s@),
{
    assert(strs_view(v.push(s)) =~= strs_view(v).push(s@));
}

/// Takes every surrounding pair of double quotes off a literal's text.
fn strip_all_quotes(s: &str) -> (r: String)
    ensures
        r@ == strip_all_quote_pairs(s@),
{
    let mut cur = to_string(s);
    loop
        invariant
            strip_all_quote_pairs(cur@) == strip_all_quote_pairs(s@),
        decreases cur@.len(),
    {
        let n = cur.as_str().unicode_len();
        if n >= 1 && cur.as_str().get_char(0) == '"' && cur.as_str().get_char(n - 1) == '"' {
            if n == 1 {
                return String::new();
            }
            let inner = to_string(cur.as_str().substring_char(1, n - 1));
            cur = inner;
        } else {
            return cur;
        }
    }
}

/// The strings of a tuple's contents, looking names up in `consts`.
pub fn get_string_tuple_group(s: &Vec<Tok>, consts: &ConstTable) -> (r: Result<
    Vec<String>,
    ParseError,
>)
    ensures
        match string_tuple(s@, consts.entries@) {
            Some(v) => r matches Ok(o) && strs_view(o@) == v,
            None => r is Err,
        },
{
    let n = s.len();
    let mut out: Vec<String> = Vec::new();
    let mut expect_punct = false;
    let mut has_last = false;
    let mut last = String::new();
    let mut i: usize = 0;
    assert(strs_view(out@) =~= Seq::<Seq<char>>::empty());
    while i < n
        invariant
            n == s@.len(),
            0 <= i <= n,
            string_tuple(s@, consts.entries@) == tuple_run(
                s@,
                i as int,
                strs_view(out@),
                expect_punct,
                if has_last {
                    Some(last@)
                } else {
                    None
                },
                consts.entries@,
            ),
        decreases n - i,
    {
        match &s[i] {
            Tok::Punct(p, _) => {
                if has_last {
                    if *p == ':' {
                        push_char(&mut last, ':');
                    } else {
                        match consts.get_const(last.as_str()) {
                            Some(v) => {
                                let ghost before = out@;
                                out.push(v);
                                proof {
                                    lemma_strs_push(before, v);
                                }
                            },
                            None => {
                                return Err(ParseError::UnknownConst(last));
                            },
                        }
                        has_last = false;
                        last = String::new();
                    }
                } else {
                    expect_punct = false;
                }
            },
            Tok::Literal(a) => {
                let v = strip_all_quotes(a.as_str());
                let ghost before = out@;
                out.push(v);
                proof {
                    lemma_strs_push(before, v);
                }
                expect_punct = true;
            },
            Tok::Ident(a) => {
                if has_last {
                    last.append(a.as_str());
                } else {
                    last = a.clone();
                    has_last = true;
                }
            },
            Tok::Group(_, _, _) => {
                return Err(ParseError::UnexpectedToken);
            },
        }
        i = i + 1;
    }
    Ok(out)
}

/// The tokens `{ _ => () }` that replace a match body when the statement is rebuilt.
fn wildcard_body() -> (t: Tok)
    ensures
        t matches Tok::Group(d, c, _) && d == Delim::Brace && c@.len() == 4 && is_ident_text(
            c@[0],
            "_"@,
        ) && c@[1] == Tok::Punct('=', true) && c@[2] == Tok::Punct('>', false) && is_group_with(
            c@[3],
            Delim::Parenthesis,
        ),
{
    let mut children: Vec<Tok> = Vec::new();
    children.push(expect_ident("_"));
    children.push(Tok::Punct('=', true));
    children.push(Tok::Punct('>', false));
    children.push(expect_group(Delim::Parenthesis));
    Tok::Group(Delim::Brace, children, to_string("{ _ => () }"))
}

/// The two statements have the same tokens and name.
pub open spec fn same_tokens(a: MatchDef, b: MatchDef) -> bool {
    &&& a.pub_ident == b.pub_ident
    &&& a.const_ident == b.const_ident
    &&& a.statement_name == b.statement_name
    &&& a.statement_name_ident == b.statement_name_ident
    &&& a.punct_ident == b.punct_ident
    &&& a.type_ident == b.type_ident
    &&& a.equals_ident == b.equals_ident
    &&& a.match_ident == b.match_ident
    &&& a.match_parens_ident == b.match_parens_ident
    &&& a.match_body == b.match_body
    &&& a.semicolon_ident == b.semicolon_ident
}

impl MatchDef {
    /// The tokens of the statement, with its match body replaced by `{ _ => () }` and a `;`
    /// added at the end when it had none.
    pub fn build(self) -> (r: Vec<Tok>)
        ensures
            r@.len() == (if self.pub_ident is Some {
                10int
            } else {
                9int
            }),
            r@.subrange(0, r@.len() - 2) == (match self.pub_ident {
                Some(p) => seq![p],
                None => Seq::empty(),
            }) + seq![
                self.const_ident,
                self.statement_name_ident,
                self.punct_ident,
                self.type_ident,
                self.equals_ident,
                self.match_ident,
                self.match_parens_ident,
            ],
            r@[r@.len() - 2] matches Tok::Group(d, c, _) && d == Delim::Brace && c@.len() == 4,
            r@[r@.len() - 1] == (match self.semicolon_ident {
                Some(t) => t,
                None => Tok::Punct(';', false),
            }),
    {
        let ghost d = self;
        let mut out: Vec<Tok> = Vec::new();
        if let Some(p) = self.pub_ident {
            out.push(p);
        }
        out.push(self.const_ident);
        out.push(self.statement_name_ident);
        out.push(self.punct_ident);
        out.push(self.type_ident);
        out.push(self.equals_ident);
        out.push(self.match_ident);
        out.push(self.match_parens_ident);
        let ghost head = out@;
        out.push(wildcard_body());
        match self.semicolon_ident {
            Some(t) => out.push(t),
            None => out.push(expect_punct(';')),
        }
        assert(out@.subrange(0, out@.len() - 2) =~= head);
        out
    }

    /// The name of the statement.
    pub fn get_name(&self) -> (r: String)
        ensures
            r@ == self.statement_name@,
    {
        self.statement_name.clone()
    }

    /// Renames the statement; its name token changes only when it is an identifier.
    pub fn set_name(&mut self, s: &str)
        ensures
            final(self).statement_name@ == s@,
            old(self).statement_name_ident is Ident ==> (final(self).statement_name_ident matches Tok::Ident(a) && a@ == s@),
            !(old(self).statement_name_ident is Ident) ==> final(self).statement_name_ident
                == old(self).statement_name_ident,
            final(self).match_body == old(self).match_body,
            final(self).match_parens_ident == old(self).match_parens_ident,
    {
        self.statement_name = to_string(s);
        let is_ident = match &self.statement_name_ident {
            Tok::Ident(_) => true,
            _ => false,
        };
        if is_ident {
            self.statement_name_ident = expect_ident(s);
        }
    }

    /// Reads the arms of the match body.
    pub fn fill_match_statements(&mut self, consts: &ConstTable) -> (r: Result<(), ParseError>)
        ensures
            match arms_of_body(old(self).match_body, consts.entries@) {
                Some(v) => r is Ok && arms_view(final(self).match_statements@) == v,
                None => r is Err && final(self).match_statements == old(self).match_statements,
            },
            same_tokens(*final(self), *old(self)),
            final(self).match_against == old(self).match_against,
    {
        let children = match &self.match_body {
            Tok::Group(_, c, _) => c,
            _ => {
                return Err(ParseError::KindMismatch);
            },
        };
        let n = children.len();
        let mut out: Vec<(Vec<String>, Vec<String>)> = Vec::new();
        let mut has_first = false;
        let mut first: Vec<String> = Vec::new();
        let mut expect_equals = false;
        let mut expect_arrow = false;
        let mut i: usize = 0;
        assert(arms_view(out@) =~= Seq::<(Seq<Seq<char>>, Seq<Seq<char>>)>::empty());
        while i < n
            invariant
                n == children@.len(),
                self.match_body matches Tok::Group(_, cc, _) && cc == *children,
                0 <= i <= n,
                arms_of_body(self.match_body, consts.entries@) == arms_run(
                    children@,
                    i as int,
                    arms_view(out@),
                    if has_first {
                        Some(strs_view(first@))
                    } else {
                        None
                    },
                    expect_equals,
                    expect_arrow,
                    consts.entries@,
                ),
            decreases n - i,
        {
            match &children[i] {
                Tok::Group(d, inner, _) => {
                    if *d != Delim::Parenthesis {
                        return Err(ParseError::DelimiterMismatch(Delim::Parenthesis, *d));
                    }
                    let a = match get_string_tuple_group(inner, consts) {
                        Ok(a) => a,
                        Err(e) => {
                            return Err(e);
                        },
                    };
                    if has_first {
                        let f = first;
                        first = Vec::new();
                        let ghost before = out@;
                        let ghost pair_v = (strs_view(f@), strs_view(a@));
                        out.push((f, a));
                        assert(arms_view(out@) =~= arms_view(before).push(pair_v));
                        has_first = false;
                    } else {
                        first = a;
                        has_first = true;
                        expect_equals = true;
                    }
                },
                Tok::Punct(c, _) => {
                    let c = *c;
                    if c == ',' {
                    } else if expect_equals && c == '=' {
                        expect_equals = false;
                        expect_arrow = true;
                    } else if expect_arrow && c == '>' {
                        expect_arrow = false;
                        expect_equals = false;
                    } else {
                        return Err(ParseError::UnexpectedToken);
                    }
                },
                _ => {
                    return Err(ParseError::UnexpectedToken);
                },
            }
            i = i + 1;
        }
        self.match_statements = out;
        Ok(())
    }

    /// Reads the strings that the statement matches against.
    pub fn fill_match_against(&mut self, consts: &ConstTable) -> (r: Result<(), ParseError>)
        ensures
            match (match old(self).match_parens_ident {
                Tok::Group(_, children, _) => string_tuple(children@, consts.entries@),
                _ => None,
            }) {
                Some(v) => r is Ok && strs_view(final(self).match_against@) == v,
                None => r is Err && final(self).match_against == old(self).match_against,
            },
            same_tokens(*final(self), *old(self)),
            final(self).match_statements == old(self).match_statements,
    {
        let out = match &self.match_parens_ident {
            Tok::Group(_, c, _) => get_string_tuple_group(c, consts),
            _ => {
                return Err(ParseError::KindMismatch);
            },
        };
        match out {
            Ok(v) => {
                self.match_against = v;
                Ok(())
            },
            Err(e) => Err(e),
        }
    }
}

/// How a token stream splits into a match statement: `pub const` or a leading identifier,
/// a name, `:`, a `( .. )` type, `=`, `match`, a `( .. )` group and a `{ .. }` body. The
/// result is the index of the leading word after an optional `pub`.
pub open spec fn match_shape(s: Seq<Tok>) -> Option<int> {
    let o: int = if s.len() >= 1 && is_ident_text(s[0], "pub"@) {
        1
    } else {
        0
    };
    if s.len() >= o + 8 && is_ident(s[0]) && (o == 1 ==> is_ident_text(s[1], "const"@)) && is_ident(
        s[o + 1],
    ) && is_punct_char(s[o + 2], ':') && is_group_with(s[o + 3], Delim::Parenthesis)
        && is_punct_char(s[o + 4], '=') && is_ident_text(s[o + 5], "match"@) && is_group_with(
        s[o + 6],
        Delim::Parenthesis,
    ) && is_group_with(s[o + 7], Delim::Brace) {
        Some(o)
    } else {
        None
    }
}

/// The statement read from `s` at offset `o`.
pub open spec fn match_def_matches(
    d: MatchDef,
    s: Seq<Tok>,
    o: int,
    consts: Seq<(String, String)>,
) -> bool {
    &&& d.pub_ident == (if o == 1 {
        Some(s[0])
    } else {
        None
    })
    &&& d.const_ident == s[o]
    &&& s[o + 1] matches Tok::Ident(a) && d.statement_name@ == a@
    &&& d.statement_name_ident == s[o + 1]
    &&& d.punct_ident == s[o + 2]
    &&& d.type_ident == s[o + 3]
    &&& d.equals_ident == s[o + 4]
    &&& d.match_ident == s[o + 5]
    &&& d.match_parens_ident == s[o + 6]
    &&& d.match_body == s[o + 7]
    &&& d.semicolon_ident is None
    &&& string_tuple_of_group(s[o + 6], consts) == Some(strs_view(d.match_against@))
    &&& arms_of_body(s[o + 7], consts) == Some(arms_view(d.match_statements@))
}

proof fn lemma_step(s: Seq<Tok>, i: int)
    requires
        0 <= i < s.len(),
    ensures
        s.subrange(i, s.len() as int)[0] == s[i],
        s.subrange(i, s.len() as int).subrange(1, s.len() - i) == s.subrange(
            i + 1,
            s.len() as int,
        ),
{
    assert(s.subrange(i, s.len() as int).subrange(1, s.len() - i) =~= s.subrange(
        i + 1,
        s.len() as int,
    ));
}

/// Takes the next token and checks it against `expect`.
fn take_expected(rest: &mut Vec<Tok>, expect: &Tok, ignore_value: bool) -> (r: Result<
    (Tok, String),
    ParseError,
>)
    ensures
        old(rest)@.len() == 0 ==> r is Err,
        old(rest)@.len() > 0 ==> final(rest)@ == old(rest)@.subrange(1, old(rest)@.len() as int),
        old(rest)@.len() > 0 ==> (match crate::tokens::token_match_text(
            old(rest)@[0],
            *expect,
            ignore_value,
        ) {
            Some(t) => r matches Ok(p) && p.0 == old(rest)@[0] && p.1@ == t,
            None => r is Err,
        }),
{
    let t = match next_tok(rest) {
        Some(t) => t,
        None => {
            return Err(ParseError::UnexpectedEnd);
        },
    };
    match assert_token_safe(&t, expect, ignore_value) {
        Ok(w) => Ok((t, w)),
        Err(e) => Err(e),
    }
}

/// Reads a match statement from a token stream, looking names up in `consts`.
pub fn parse_match_def_safe(token_stream: Vec<Tok>, consts: &ConstTable) -> (r: Result<
    MatchDef,
    ParseError,
>)
    ensures
        match match_shape(token_stream@) {
            Some(o) => match (
                string_tuple_of_group(token_stream@[o + 6], consts.entries@),
                arms_of_body(token_stream@[o + 7], consts.entries@),
            ) {
                (Some(_), Some(_)) => r matches Ok(d) && match_def_matches(
                    d,
                    token_stream@,
                    o,
                    consts.entries@,
                ),
                _ => r is Err,
            },
            None => r is Err,
        },
{
    proof {
        reveal_strlit("pub");
        reveal_strlit("const");
        reveal_strlit("match");
    }
    let ghost s = token_stream@;
    let mut rest = token_stream;
    assert(s.subrange(0, s.len() as int) =~= s);
    let expect = expect_ident("const");
    let (first, word) = match take_expected(&mut rest, &expect, true) {
        Ok(p) => p,
        Err(e) => {
            return Err(e);
        },
    };
    let mut pub_ident: Option<Tok> = None;
    let const_ident;
    let ghost mut o: int = 0;
    if str_eq(word.as_str(), "pub") {
        pub_ident = Some(first);
        proof {
            lemma_step(s, 0);
        }
        let (second, _) = match take_expected(&mut rest, &expect, false) {
            Ok(p) => p,
            Err(e) => {
                return Err(e);
            },
        };
        const_ident = second;
        proof {
            o = 1;
        }
    } else {
        const_ident = first;
    }
    proof {
        lemma_step(s, o);
    }
    let (name_tok, name) = match take_expected(&mut rest, &expect, true) {
        Ok(p) => p,
        Err(e) => {
            return Err(e);
        },
    };
    proof {
        lemma_step(s, o + 1);
    }
    let expect = expect_punct(':');
    let (punct_ident, _) = match take_expected(&mut rest, &expect, false) {
        Ok(p) => p,
        Err(e) => {
            return Err(e);
        },
    };
    proof {
        lemma_step(s, o + 2);
    }
    let expect = expect_group(Delim::Parenthesis);
    let (type_ident, _) = match take_expected(&mut rest, &expect, true) {
        Ok(p) => p,
        Err(e) => {
            return Err(e);
        },
    };
    proof {
        lemma_step(s, o + 3);
    }
    let expect = expect_punct('=');
    let (equals_ident, _) = match take_expected(&mut rest, &expect, false) {
        Ok(p) => p,
        Err(e) => {
            return Err(e);
        },
    };
    proof {
        lemma_step(s, o + 4);
    }
    let expect = expect_ident("match");
    let (match_ident, _) = match take_expected(&mut rest, &expect, false) {
        Ok(p) => p,
        Err(e) => {
            return Err(e);
        },
    };
    proof {
        lemma_step(s, o + 5);
    }
    let expect = expect_group(Delim::Parenthesis);
    let (match_parens_ident, _) = match take_expected(&mut rest, &expect, false) {
        Ok(p) => p,
        Err(e) => {
            return Err(e);
        },
    };
    proof {
        lemma_step(s, o + 6);
    }
    let expect = expect_group(Delim::Brace);
    let (match_body, _) = match take_expected(&mut rest, &expect, false) {
        Ok(p) => p,
        Err(e) => {
            return Err(e);
        },
    };
    let mut out = MatchDef {
        pub_ident,
        const_ident,
        statement_name: name,
        statement_name_ident: name_tok,
        punct_ident,
        type_ident,
        equals_ident,
        match_ident,
        match_parens_ident,
        match_body,
        semicolon_ident: None,
        match_against: Vec::new(),
        match_statements: Vec::new(),
    };
    match out.fill_match_against(consts) {
        Ok(()) => {},
        Err(e) => {
            return Err(e);
        },
    }
    match out.fill_match_statements(consts) {
        Ok(()) => {},
        Err(e) => {
            return Err(e);
        },
    }
    Ok(out)
}

} // verus!
