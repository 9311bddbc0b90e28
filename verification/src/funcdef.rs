use vstd::prelude::*;
use vstd::string::*;

use crate::text::{push_char, str_eq};
use crate::tokens::{
    assert_token_safe, expect_group, expect_ident, is_group_with, is_ident, is_ident_text,
    is_punct_char, next_tok, token_text, tok_text, Delim, ParseError, Tok,
};

verus! {

/// A function definition split into its parts, each part the token it was read from.
#[derive(Debug)]
pub struct FuncDef {
    pub fn_async_ident: Option<Tok>,
    pub fn_pub_ident: Option<Tok>,
    pub fn_unsafe_ident: Option<Tok>,
    pub fn_const_ident: Option<Tok>,
    pub fn_ident: Tok,
    pub fn_name: Tok,
    pub fn_params: Tok,
    pub fn_return_punct: Vec<Tok>,
    pub fn_return: Vec<Tok>,
    pub fn_body: Tok,
    /// The parameters as (name, type text) pairs, once read with `build_params`.
    pub params: Vec<(String, String)>,
}

/// Whether a token is one of the words that may stand before `fn`.
pub open spec fn is_fn_modifier(t: Tok) -> bool {
    ||| is_ident_text(t, "const"@)
    ||| is_ident_text(t, "async"@)
    ||| is_ident_text(t, "pub"@)
    ||| is_ident_text(t, "unsafe"@)
}

/// The index of the `fn` keyword, when the tokens from `i` up to it are all modifiers.
pub open spec fn scan_fn_keyword(s: Seq<Tok>, i: int) -> Option<int>
    decreases s.len() - i,
{
    if i < 0 || i >= s.len() {
        None
    } else if is_ident_text(s[i], "fn"@) {
        Some(i)
    } else if is_fn_modifier(s[i]) {
        scan_fn_keyword(s, i + 1)
    } else {
        None
    }
}

/// The index of the last identifier `kw` before index `i`.
pub open spec fn last_kw_before(s: Seq<Tok>, i: int, kw: Seq<char>) -> Option<int>
    decreases i,
{
    if i <= 0 {
        None
    } else if is_ident_text(s[i - 1], kw) {
        Some(i - 1)
    } else {
        last_kw_before(s, i - 1, kw)
    }
}

/// The first index from `i` on that holds a `{ .. }` group.
pub open spec fn first_brace_group(s: Seq<Tok>, i: int) -> Option<int>
    decreases s.len() - i,
{
    if i < 0 || i >= s.len() {
        None
    } else if is_group_with(s[i], Delim::Brace) {
        Some(i)
    } else {
        first_brace_group(s, i + 1)
    }
}

/// Where the parts of a function definition stand in a token stream.
pub struct FnShape {
    /// index of `fn`
    pub fn_at: int,
    /// whether `->` and a return type follow the parameters
    pub has_return: bool,
    /// index of the body
    pub body_at: int,
}

/// How a token stream splits into a function definition: modifiers, `fn`, a name, a
/// `( .. )` group of parameters, and either a group (the body, with no return type) or
/// `-` and a second token (which must be `>` if it is a punctuation mark), return type
/// tokens and a `{ .. }` body.
pub open spec fn fn_shape(s: Seq<Tok>) -> Option<FnShape> {
    match scan_fn_keyword(s, 0) {
        None => None,
        Some(f) => {
            if f + 3 >= s.len() || !is_ident(s[f + 1]) || !is_group_with(
                s[f + 2],
                Delim::Parenthesis,
            ) {
                None
            } else if s[f + 3] is Group {
                Some(FnShape { fn_at: f, has_return: false, body_at: f + 3 })
            } else if is_punct_char(s[f + 3], '-') {
                if f + 4 >= s.len() || (s[f + 4] is Punct && !is_punct_char(s[f + 4], '>')) {
                    None
                } else {
                    match first_brace_group(s, f + 5) {
                        None => None,
                        Some(b) => Some(FnShape { fn_at: f, has_return: true, body_at: b }),
                    }
                }
            } else {
                None
            }
        },
    }
}

pub open spec fn opt_tok_at(s: Seq<Tok>, i: Option<int>) -> Option<Tok> {
    match i {
        Some(k) => Some(s[k]),
        None => None,
    }
}

/// Why a token stream is no function definition, as the reader finds it.
pub enum FnRefusal {
    /// the tokens ran out
    End,
    /// a token of the wrong kind: not an identifier before `fn` or as the name, not a group
    /// as the parameters
    Kind,
    /// the parameters are in brackets of another kind
    Delimiter(Delim),
    /// an identifier before `fn` that is not `const`, `async`, `pub` or `unsafe`
    Ident(Seq<char>),
    /// a token after the parameters that is neither the body nor `->`
    Token,
}

/// What the reader finds wrong when the tokens from `i` on are modifiers with no `fn`.
pub open spec fn scan_refusal(s: Seq<Tok>, i: int) -> FnRefusal
    decreases s.len() - i,
{
    if i < 0 || i >= s.len() {
        FnRefusal::End
    } else {
        match s[i] {
            Tok::Ident(w) => if is_fn_modifier(s[i]) {
                scan_refusal(s, i + 1)
            } else {
                FnRefusal::Ident(w@)
            },
            _ => FnRefusal::Kind,
        }
    }
}

/// What the reader finds wrong with a stream that is no function definition (see
/// `fn_shape`): the first thing, in order, that is not as it should be.
pub open spec fn fn_refusal(s: Seq<Tok>) -> FnRefusal {
    match scan_fn_keyword(s, 0) {
        None => scan_refusal(s, 0),
        Some(f) => if f + 1 >= s.len() {
            FnRefusal::End
        } else if !(s[f + 1] is Ident) {
            FnRefusal::Kind
        } else if f + 2 >= s.len() {
            FnRefusal::End
        } else if !(s[f + 2] is Group) {
            FnRefusal::Kind
        } else if !is_group_with(s[f + 2], Delim::Parenthesis) {
            FnRefusal::Delimiter(s[f + 2]->Group_0)
        } else if f + 3 >= s.len() {
            FnRefusal::End
        } else if !is_punct_char(s[f + 3], '-') {
            FnRefusal::Token
        } else if f + 4 >= s.len() {
            FnRefusal::End
        } else if s[f + 4] is Punct && !is_punct_char(s[f + 4], '>') {
            FnRefusal::Token
        } else {
            FnRefusal::End
        },
    }
}

/// The error that reports a refusal.
pub open spec fn refusal_error(e: ParseError, k: FnRefusal) -> bool {
    match k {
        FnRefusal::End => e is UnexpectedEnd,
        FnRefusal::Kind => e is KindMismatch,
        FnRefusal::Delimiter(d) => e == ParseError::DelimiterMismatch(Delim::Parenthesis, d),
        FnRefusal::Ident(w) => e matches ParseError::UnexpectedIdent(x) && x@ == w,
        FnRefusal::Token => e is UnexpectedToken,
    }
}

/// The function definition read from `s` with the given shape.
pub open spec fn fn_def_matches(d: FuncDef, s: Seq<Tok>, sh: FnShape) -> bool {
    let f = sh.fn_at;
    &&& d.fn_const_ident == opt_tok_at(s, last_kw_before(s, f, "const"@))
    &&& d.fn_async_ident == opt_tok_at(s, last_kw_before(s, f, "async"@))
    &&& d.fn_pub_ident == opt_tok_at(s, last_kw_before(s, f, "pub"@))
    &&& d.fn_unsafe_ident == opt_tok_at(s, last_kw_before(s, f, "unsafe"@))
    &&& d.fn_ident == s[f]
    &&& d.fn_name == s[f + 1]
    &&& d.fn_params == s[f + 2]
    &&& d.fn_body == s[sh.body_at]
    &&& d.params@.len() == 0
    &&& if sh.has_return {
        &&& d.fn_return_punct@ == s.subrange(f + 3, f + 5)
        &&& d.fn_return@ == s.subrange(f + 5, sh.body_at)
    } else {
        &&& d.fn_return_punct@.len() == 0
        &&& d.fn_return@.len() == 0
    }
}

/// The parts before the return type have been read from `s`, whose `fn` is at `f` and
/// which has `->` after the parameters.
pub open spec fn head_read(d: FuncDef, s: Seq<Tok>, f: int) -> bool {
    &&& 0 <= f && f + 4 < s.len()
    &&& scan_fn_keyword(s, 0) == Some(f)
    &&& is_ident(s[f + 1])
    &&& is_group_with(s[f + 2], Delim::Parenthesis)
    &&& is_punct_char(s[f + 3], '-')
    &&& !(s[f + 4] is Punct && !is_punct_char(s[f + 4], '>'))
    &&& d.fn_const_ident == opt_tok_at(s, last_kw_before(s, f, "const"@))
    &&& d.fn_async_ident == opt_tok_at(s, last_kw_before(s, f, "async"@))
    &&& d.fn_pub_ident == opt_tok_at(s, last_kw_before(s, f, "pub"@))
    &&& d.fn_unsafe_ident == opt_tok_at(s, last_kw_before(s, f, "unsafe"@))
    &&& d.fn_ident == s[f]
    &&& d.fn_name == s[f + 1]
    &&& d.fn_params == s[f + 2]
    &&& d.params@.len() == 0
    &&& d.fn_return_punct@ == s.subrange(f + 3, f + 5)
}

proof fn lemma_fn_keywords_distinct()
    ensures
        "const"@ != "fn"@,
        "const"@ != "async"@,
        "const"@ != "pub"@,
        "const"@ != "unsafe"@,
        "fn"@ != "async"@,
        "fn"@ != "pub"@,
        "fn"@ != "unsafe"@,
        "async"@ != "pub"@,
        "async"@ != "unsafe"@,
        "pub"@ != "unsafe"@,
{
    reveal_strlit("const");
    reveal_strlit("fn");
    reveal_strlit("async");
    reveal_strlit("pub");
    reveal_strlit("unsafe");
    assert("const"@[0] == 'c');
    assert("fn"@[0] == 'f');
    assert("async"@[0] == 'a');
    assert("pub"@[0] == 'p');
    assert("unsafe"@[0] == 'u');
}

/// A placeholder definition whose parts are all the identifier `fn`.
pub fn default_func_def() -> (d: FuncDef)
    ensures
        d.params@.len() == 0,
        d.fn_return@.len() == 0,
        d.fn_return_punct@.len() == 0,
        d.fn_async_ident is None,
        d.fn_pub_ident is None,
        d.fn_unsafe_ident is None,
        d.fn_const_ident is None,
        d.fn_ident matches Tok::Ident(a) && a@ == "fn"@,
        d.fn_name matches Tok::Ident(a) && a@ == "fn"@,
        d.fn_params matches Tok::Ident(a) && a@ == "fn"@,
        d.fn_body matches Tok::Ident(a) && a@ == "fn"@,
{
    FuncDef {
        fn_async_ident: None,
        fn_pub_ident: None,
        fn_unsafe_ident: None,
        fn_const_ident: None,
        fn_ident: expect_ident("fn"),
        fn_name: expect_ident("fn"),
        fn_params: expect_ident("fn"),
        fn_return_punct: Vec::new(),
        fn_return: Vec::new(),
        fn_body: expect_ident("fn"),
        params: Vec::new(),
    }
}

proof fn lemma_subrange_step(s: Seq<Tok>, i: int)
    requires
        0 <= i < s.len(),
    ensures
        s.subrange(i, s.len() as int)[0] == s[i],
        s.subrange(i, s.len() as int).subrange(1, s.len() - i) == s.subrange(
            i + 1,
            s.len() as int,
        ),
{
    assert(s.subrange(i, s.len() as int).subrange(1, s.len() - i) =~= s.subrange(
        i + 1,
        s.len() as int,
    ));
}

/// Reads a function definition from a token stream (`assert_async` is not consulted).
/// Tokens after the body are ignored.
pub fn parse_func_def_safe(token_stream: Vec<Tok>, assert_async: bool) -> (r: Result<
    FuncDef,
    ParseError,
>)
    ensures
        match fn_shape(token_stream@) {
            Some(sh) => r matches Ok(d) && fn_def_matches(d, token_stream@, sh),
            None => r matches Err(e) && refusal_error(e, fn_refusal(token_stream@)),
        },
{
    proof {
        reveal_strlit("const");
        reveal_strlit("fn");
        reveal_strlit("async");
        reveal_strlit("pub");
        reveal_strlit("unsafe");
    }
    let ghost s = token_stream@;
    let mut out = default_func_def();
    let mut rest = token_stream;
    let ghost mut i: int = 0;
    let expect = expect_ident("async");
    assert(s.subrange(0, s.len() as int) =~= s);
    loop
        invariant_except_break
            s == token_stream@,
            0 <= i <= s.len(),
            rest@ == s.subrange(i, s.len() as int),
            scan_fn_keyword(s, 0) == scan_fn_keyword(s, i),
            scan_refusal(s, 0) == scan_refusal(s, i),
            forall|j: int| 0 <= j < i ==> is_fn_modifier(#[trigger] s[j]),
            out.fn_const_ident == opt_tok_at(s, last_kw_before(s, i, "const"@)),
            out.fn_async_ident == opt_tok_at(s, last_kw_before(s, i, "async"@)),
            out.fn_pub_ident == opt_tok_at(s, last_kw_before(s, i, "pub"@)),
            out.fn_unsafe_ident == opt_tok_at(s, last_kw_before(s, i, "unsafe"@)),
            out.params@.len() == 0,
            out.fn_return@.len() == 0,
            out.fn_return_punct@.len() == 0,
            expect is Ident,
        ensures
            s == token_stream@,
            0 <= i < s.len(),
            rest@ == s.subrange(i + 1, s.len() as int),
            scan_fn_keyword(s, 0) == Some(i),
            out.fn_ident == s[i],
            out.fn_const_ident == opt_tok_at(s, last_kw_before(s, i, "const"@)),
            out.fn_async_ident == opt_tok_at(s, last_kw_before(s, i, "async"@)),
            out.fn_pub_ident == opt_tok_at(s, last_kw_before(s, i, "pub"@)),
            out.fn_unsafe_ident == opt_tok_at(s, last_kw_before(s, i, "unsafe"@)),
            out.params@.len() == 0,
            out.fn_return@.len() == 0,
            out.fn_return_punct@.len() == 0,
        decreases s.len() - i,
    {
        let next = match next_tok(&mut rest) {
            Some(t) => t,
            None => {
                return Err(ParseError::UnexpectedEnd);
            },
        };
        proof {
            lemma_subrange_step(s, i);
        }
        assert(next == s[i]);
        let word = match assert_token_safe(&next, &expect, true) {
            Ok(w) => w,
            Err(e) => {
                return Err(e);
            },
        };
        assert(s[i] matches Tok::Ident(a) && a@ == word@);
        if str_eq(word.as_str(), "const") {
            out.fn_const_ident = Some(next);
        } else if str_eq(word.as_str(), "fn") {
            out.fn_ident = next;
            break ;
        } else if str_eq(word.as_str(), "async") {
            out.fn_async_ident = Some(next);
        } else if str_eq(word.as_str(), "pub") {
            out.fn_pub_ident = Some(next);
        } else if str_eq(word.as_str(), "unsafe") {
            out.fn_unsafe_ident = Some(next);
        } else {
            return Err(ParseError::UnexpectedIdent(word));
        }
        proof {
            lemma_fn_keywords_distinct();
            i = i + 1;
        }
    }
    let ghost f = i;
    // the name of the function
    let name = match next_tok(&mut rest) {
        Some(t) => t,
        None => {
            return Err(ParseError::UnexpectedEnd);
        },
    };
    proof {
        lemma_subrange_step(s, f + 1);
    }
    let expect = expect_ident("fn");
    match assert_token_safe(&name, &expect, true) {
        Ok(_) => {},
        Err(e) => {
            return Err(e);
        },
    }
    out.fn_name = name;
    let params = match next_tok(&mut rest) {
        Some(t) => t,
        None => {
            return Err(ParseError::UnexpectedEnd);
        },
    };
    proof {
        lemma_subrange_step(s, f + 2);
    }
    let expect = expect_group(Delim::Parenthesis);
    match assert_token_safe(&params, &expect, false) {
        Ok(_) => {},
        Err(e) => {
            return Err(e);
        },
    }
    out.fn_params = params;
    let next = match next_tok(&mut rest) {
        Some(t) => t,
        None => {
            return Err(ParseError::UnexpectedEnd);
        },
    };
    proof {
        lemma_subrange_step(s, f + 3);
    }
    match &next {
        Tok::Punct(c, _) => {
            if *c != '-' {
                return Err(ParseError::UnexpectedToken);
            }
        },
        Tok::Group(_, _, _) => {
            out.fn_body = next;
            return Ok(out);
        },
        _ => {
            return Err(ParseError::UnexpectedToken);
        },
    }
    out.fn_return_punct.push(next);
    let next = match next_tok(&mut rest) {
        Some(t) => t,
        None => {
            return Err(ParseError::UnexpectedEnd);
        },
    };
    proof {
        lemma_subrange_step(s, f + 4);
    }
    match &next {
        Tok::Punct(c, _) => {
            if *c != '>' {
                return Err(ParseError::UnexpectedToken);
            }
        },
        _ => {},
    }
    out.fn_return_punct.push(next);
    assert(out.fn_return_punct@ =~= s.subrange(f + 3, f + 5));
    let ghost mut k: int = f + 5;
    assert(out.fn_return@ =~= s.subrange(f + 5, k));
    loop
        invariant_except_break
            s == token_stream@,
            0 <= f,
            f + 5 <= k <= s.len(),
            head_read(out, s, f),
            rest@ == s.subrange(k, s.len() as int),
            first_brace_group(s, f + 5) == first_brace_group(s, k),
            out.fn_return@ == s.subrange(f + 5, k),
        ensures
            s == token_stream@,
            0 <= f,
            f + 5 <= k < s.len(),
            head_read(out, s, f),
            first_brace_group(s, f + 5) == Some(k),
            out.fn_body == s[k],
            out.fn_return@ == s.subrange(f + 5, k),
        decreases s.len() - k,
    {
        let next = match next_tok(&mut rest) {
            Some(t) => t,
            None => {
                return Err(ParseError::UnexpectedEnd);
            },
        };
        proof {
            lemma_subrange_step(s, k);
        }
        let is_body = match &next {
            Tok::Group(d, _, _) => *d == Delim::Brace,
            _ => false,
        };
        if is_body {
            out.fn_body = next;
            break ;
        }
        out.fn_return.push(next);
        proof {
            assert(out.fn_return@ =~= s.subrange(f + 5, k + 1));
            k = k + 1;
        }
    }
    Ok(out)
}


/// Where the reading of a parameter list stands.
pub enum ParamState {
    /// before a parameter name; the flag tells whether a `,` was already skipped
    AtName(bool),
    /// after a parameter name, before its `:`
    AtColon(Seq<char>),
    /// inside the type of the named parameter, at the given `<` depth, with the type text read
    InType(Seq<char>, int, Seq<char>),
}

/// The (name, type text) pairs of a parameter list, read from index `i` on in state `st`
/// with `acc` already read. A name with no `:` after it at the end is dropped; a type
/// ends at a `,` outside `< .. >`, at the `>` that closes the outermost `<`, or at the end.
pub open spec fn params_run(
    s: Seq<Tok>,
    i: int,
    st: ParamState,
    acc: Seq<(Seq<char>, Seq<char>)>,
) -> Option<Seq<(Seq<char>, Seq<char>)>>
    decreases s.len() - i,
{
    if i < 0 || i >= s.len() {
        match st {
            ParamState::InType(n, _, ty) => Some(acc.push((n, ty))),
            _ => Some(acc),
        }
    } else {
        let t = s[i];
        match st {
            ParamState::AtName(skipped) => {
                if !skipped && is_punct_char(t, ',') {
                    params_run(s, i + 1, ParamState::AtName(true), acc)
                } else {
                    match t {
                        Tok::Ident(a) => params_run(s, i + 1, ParamState::AtColon(a@), acc),
                        _ => None,
                    }
                }
            },
            ParamState::AtColon(n) => {
                if is_punct_char(t, ':') {
                    params_run(s, i + 1, ParamState::InType(n, 0, Seq::empty()), acc)
                } else {
                    None
                }
            },
            ParamState::InType(n, d, ty) => match t {
                Tok::Group(_, _, g) => params_run(s, i + 1, ParamState::InType(n, d, ty + g@), acc),
                Tok::Ident(a) => params_run(s, i + 1, ParamState::InType(n, d, ty + a@), acc),
                Tok::Literal(_) => None,
                Tok::Punct(c, _) => {
                    if c == ',' && d == 0 {
                        params_run(s, i + 1, ParamState::AtName(false), acc.push((n, ty)))
                    } else if c == '<' {
                        params_run(s, i + 1, ParamState::InType(n, d + 1, ty.push(c)), acc)
                    } else if c == '>' {
                        if d - 1 == 0 {
                            params_run(
                                s,
                                i + 1,
                                ParamState::AtName(false),
                                acc.push((n, ty.push(c))),
                            )
                        } else {
                            params_run(s, i + 1, ParamState::InType(n, d - 1, ty.push(c)), acc)
                        }
                    } else {
                        params_run(s, i + 1, ParamState::InType(n, d, ty.push(c)), acc)
                    }
                },
            },
        }
    }
}

/// The parameters of a `( .. )` token, when it is a group whose contents read as a
/// parameter list.
pub open spec fn params_of(t: Tok) -> Option<Seq<(Seq<char>, Seq<char>)>> {
    match t {
        Tok::Group(_, children, _) => params_run(
            children@,
            0,
            ParamState::AtName(false),
            Seq::empty(),
        ),
        _ => None,
    }
}

pub open spec fn str_pairs_view(s: Seq<(String, String)>) -> Seq<(Seq<char>, Seq<char>)> {
    Seq::new(s.len(), |i: int| (s[i].0@, s[i].1@))
}

proof fn lemma_str_pairs_push(s: Seq<(String, String)>, p: (String, String))
    ensures
        str_pairs_view(s.push(p)) == str_pairs_view(s).push((p.0@, p.1@)),
{
    assert(str_pairs_view(s.push(p)) =~= str_pairs_view(s).push((p.0@, p.1@)));
}

/// Reads the (name, type text) pairs of a parameter group.
pub fn parse_params(params: &Tok) -> (r: Option<Vec<(String, String)>>)
    ensures
        match params_of(*params) {
            Some(ps) => r matches Some(v) && str_pairs_view(v@) == ps,
            None => r is None,
        },
{
    let children = match params {
        Tok::Group(_, c, _) => c,
        _ => {
            return None;
        },
    };
    let n = children.len();
    let mut out: Vec<(String, String)> = Vec::new();
    // 0: before a name, 1: before a name after a skipped comma, 2: before a colon, 3: in a type
    let mut mode: u8 = 0;
    let mut name = String::new();
    let mut depth: i128 = 0;
    let mut ty = String::new();
    let mut i: usize = 0;
    let ghost st0 = ParamState::AtName(false);
    assert(str_pairs_view(out@) =~= Seq::<(Seq<char>, Seq<char>)>::empty());
    while i < n
        invariant
            n == children@.len(),
            0 <= i <= n,
            mode <= 3,
            -(i as int) <= depth <= i,
            params_of(*params) == params_run(
                children@,
                i as int,
                if mode == 0 {
                    ParamState::AtName(false)
                } else if mode == 1 {
                    ParamState::AtName(true)
                } else if mode == 2 {
                    ParamState::AtColon(name@)
                } else {
                    ParamState::InType(name@, depth as int, ty@)
                },
                str_pairs_view(out@),
            ),
        decreases n - i,
    {
        let t = &children[i];
        if mode == 0 || mode == 1 {
            let is_comma = match t {
                Tok::Punct(c, _) => *c == ',',
                _ => false,
            };
            if mode == 0 && is_comma {
                mode = 1;
            } else {
                match t {
                    Tok::Ident(a) => {
                        name = a.clone();
                        mode = 2;
                    },
                    _ => {
                        return None;
                    },
                }
            }
        } else if mode == 2 {
            match t {
                Tok::Punct(c, _) => {
                    if *c != ':' {
                        return None;
                    }
                },
                _ => {
                    return None;
                },
            }
            mode = 3;
            depth = 0;
            ty = String::new();
        } else {
            match t {
                Tok::Group(_, _, g) => {
                    ty.append(g.as_str());
                },
                Tok::Ident(a) => {
                    ty.append(a.as_str());
                },
                Tok::Literal(_) => {
                    return None;
                },
                Tok::Punct(c, _) => {
                    let c = *c;
                    if c == ',' && depth == 0 {
                        let ghost before = out@;
                        let pair = (name.clone(), ty.clone());
                        out.push(pair);
                        proof {
                            lemma_str_pairs_push(before, pair);
                        }
                        mode = 0;
                    } else {
                        push_char(&mut ty, c);
                        if c == '<' {
                            depth = depth + 1;
                        } else if c == '>' {
                            depth = depth - 1;
                            if depth == 0 {
                                let ghost before = out@;
                                let pair = (name.clone(), ty.clone());
                                out.push(pair);
                                proof {
                                    lemma_str_pairs_push(before, pair);
                                }
                                mode = 0;
                            }
                        }
                    }
                },
            }
        }
        i = i + 1;
    }
    if mode == 3 {
        let ghost before = out@;
        let pair = (name.clone(), ty.clone());
        out.push(pair);
        proof {
            lemma_str_pairs_push(before, pair);
        }
    }
    Some(out)
}

/// The tokens of a definition, in source order.
pub open spec fn opt_toks(o: Option<Tok>) -> Seq<Tok> {
    match o {
        Some(t) => seq![t],
        None => Seq::empty(),
    }
}

/// The text of a sequence of tokens, each printed after the other with nothing between.
pub open spec fn toks_text(s: Seq<Tok>) -> Seq<char>
    decreases s.len(),
{
    if s.len() == 0 {
        Seq::empty()
    } else {
        toks_text(s.drop_last()) + tok_text(s.last())
    }
}

/// All fields but the parameter list are those of `b`.
pub open spec fn same_but_params(a: FuncDef, b: FuncDef) -> bool {
    &&& a.fn_async_ident == b.fn_async_ident
    &&& a.fn_pub_ident == b.fn_pub_ident
    &&& a.fn_unsafe_ident == b.fn_unsafe_ident
    &&& a.fn_const_ident == b.fn_const_ident
    &&& a.fn_ident == b.fn_ident
    &&& a.fn_name == b.fn_name
    &&& a.fn_params == b.fn_params
    &&& a.fn_return_punct == b.fn_return_punct
    &&& a.fn_return == b.fn_return
    &&& a.fn_body == b.fn_body
}

/// The parameter list after `build_params` would run when it is empty.
pub open spec fn params_after_build(d: FuncDef) -> Option<Seq<(Seq<char>, Seq<char>)>> {
    if d.params@.len() == 0 {
        params_of(d.fn_params)
    } else {
        Some(str_pairs_view(d.params@))
    }
}

impl FuncDef {
    /// The tokens of the definition: `pub`, then `const` or `async`, `unsafe`, `fn`, the
    /// name, the parameters, the return arrow and type, and the body.
    pub fn build(self) -> (r: Vec<Tok>)
        requires
            !(self.fn_async_ident is Some && self.fn_const_ident is Some),
        ensures
            r@ == opt_toks(self.fn_pub_ident) + opt_toks(self.fn_const_ident) + opt_toks(
                self.fn_async_ident,
            ) + opt_toks(self.fn_unsafe_ident) + seq![self.fn_ident, self.fn_name, self.fn_params]
                + self.fn_return_punct@ + self.fn_return@ + seq![self.fn_body],
    {
        let ghost d = self;
        let FuncDef {
            fn_async_ident,
            fn_pub_ident,
            fn_unsafe_ident,
            fn_const_ident,
            fn_ident,
            fn_name,
            fn_params,
            mut fn_return_punct,
            mut fn_return,
            fn_body,
            params: _,
        } = self;
        let mut out: Vec<Tok> = Vec::new();
        if let Some(t) = fn_pub_ident {
            out.push(t);
        }
        if let Some(t) = fn_const_ident {
            out.push(t);
        }
        if let Some(t) = fn_async_ident {
            out.push(t);
        }
        if let Some(t) = fn_unsafe_ident {
            out.push(t);
        }
        out.push(fn_ident);
        out.push(fn_name);
        out.push(fn_params);
        out.append(&mut fn_return_punct);
        out.append(&mut fn_return);
        out.push(fn_body);
        assert(out@ =~= opt_toks(d.fn_pub_ident) + opt_toks(d.fn_const_ident) + opt_toks(
            d.fn_async_ident,
        ) + opt_toks(d.fn_unsafe_ident) + seq![d.fn_ident, d.fn_name, d.fn_params]
            + d.fn_return_punct@ + d.fn_return@ + seq![d.fn_body]);
        out
    }

    /// Reads the parameter group into (name, type text) pairs and appends them to `params`.
    pub fn build_params(&mut self)
        requires
            params_of(old(self).fn_params) is Some,
        ensures
            same_but_params(*final(self), *old(self)),
            str_pairs_view(final(self).params@) == str_pairs_view(old(self).params@) + params_of(
                old(self).fn_params,
            )->Some_0,
    {
        let parsed = parse_params(&self.fn_params);
        match parsed {
            Some(mut v) => {
                let ghost before = self.params@;
                let ghost added = v@;
                self.params.append(&mut v);
                assert(str_pairs_view(self.params@) =~= str_pairs_view(before) + str_pairs_view(
                    added,
                ));
            },
            None => {},
        }
    }

    /// The text of the return type, the return tokens printed one after the other.
    pub fn get_return_type(&self) -> (r: String)
        ensures
            r@ == toks_text(self.fn_return@),
    {
        let mut out = String::new();
        let n = self.fn_return.len();
        let mut i: usize = 0;
        while i < n
            invariant
                n == self.fn_return@.len(),
                0 <= i <= n,
                out@ == toks_text(self.fn_return@.subrange(0, i as int)),
            decreases n - i,
        {
            let t = token_text(&self.fn_return[i]);
            out.append(t.as_str());
            assert(self.fn_return@.subrange(0, i + 1).drop_last() =~= self.fn_return@.subrange(
                0,
                i as int,
            ));
            i = i + 1;
        }
        assert(self.fn_return@.subrange(0, n as int) =~= self.fn_return@);
        out
    }

    /// Renames the function.
    pub fn set_func_name(&mut self, new_name: &str)
        requires
            old(self).fn_name is Ident,
        ensures
            final(self).fn_name matches Tok::Ident(a) && a@ == new_name@,
            final(self).fn_ident == old(self).fn_ident,
            final(self).fn_params == old(self).fn_params,
            final(self).fn_body == old(self).fn_body,
            final(self).fn_return == old(self).fn_return,
            final(self).fn_return_punct == old(self).fn_return_punct,
            final(self).fn_async_ident == old(self).fn_async_ident,
            final(self).fn_pub_ident == old(self).fn_pub_ident,
            final(self).fn_unsafe_ident == old(self).fn_unsafe_ident,
            final(self).fn_const_ident == old(self).fn_const_ident,
            final(self).params == old(self).params,
    {
        self.fn_name = expect_ident(new_name);
    }

    /// The name of the function.
    pub fn get_func_name(&self) -> (r: String)
        requires
            self.fn_name is Ident,
        ensures
            self.fn_name matches Tok::Ident(a) && a@ == r@,
    {
        match &self.fn_name {
            Tok::Ident(a) => a.clone(),
            _ => {
                proof {
                    assert(false);
                }
                String::new()
            },
        }
    }

    /// Reads the parameters if they were not read yet, on definitions with `num` of them.
    pub fn assert_num_params(&mut self, num: usize)
        requires
            params_after_build(*old(self)) matches Some(ps) && ps.len() == num,
        ensures
            same_but_params(*final(self), *old(self)),
            Some(str_pairs_view(final(self).params@)) == params_after_build(*old(self)),
    {
        if self.params.len() == 0 {
            self.build_params();
            assert(str_pairs_view(old(self).params@) + params_of(old(self).fn_params)->Some_0
                =~= params_of(old(self).fn_params)->Some_0);
        }
    }

    /// The `n`th parameter (name, type text), reading the parameters if they were not read yet.
    pub fn get_nth_param(&mut self, n: usize) -> (r: (String, String))
        requires
            params_after_build(*old(self)) matches Some(ps) && n < ps.len(),
        ensures
            same_but_params(*final(self), *old(self)),
            Some(str_pairs_view(final(self).params@)) == params_after_build(*old(self)),
            (r.0@, r.1@) == params_after_build(*old(self))->Some_0[n as int],
    {
        if self.params.len() == 0 {
            self.build_params();
            assert(str_pairs_view(old(self).params@) + params_of(old(self).fn_params)->Some_0
                =~= params_of(old(self).fn_params)->Some_0);
        }
        let p = &self.params[n];
        (p.0.clone(), p.1.clone())
    }
}

/// Reads a function definition, on token streams that hold one.
pub fn parse_func_def(token_stream: Vec<Tok>, assert_async: bool) -> (r: FuncDef)
    requires
        fn_shape(token_stream@) is Some,
    ensures
        fn_def_matches(r, token_stream@, fn_shape(token_stream@)->Some_0),
{
    match parse_func_def_safe(token_stream, assert_async) {
        Ok(d) => d,
        Err(_) => {
            proof {
                assert(false);
            }
            default_func_def()
        },
    }
}

} // verus!
