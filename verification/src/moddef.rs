use vstd::prelude::*;
use vstd::string::*;

use crate::text::str_eq;
use crate::tokens::{
    assert_token_safe, does_match_token, expect_group, expect_ident, is_group_with, is_ident,
    is_ident_text, next_tok, token_match_text, Delim, ParseError, Tok,
};

verus! {

/// A module definition split into its parts, each part the token it was read from.
#[derive(Debug)]
pub struct ModDef {
    pub pub_ident: Option<Tok>,
    pub mod_ident: Tok,
    pub mod_name_ident: Tok,
    pub mod_body: Tok,
}

/// How a token stream splits into a module definition: an optional `pub`, `mod`, a name and
/// a `{ .. }` body; the result tells whether `pub` is there. Tokens after the body are ignored.
pub open spec fn mod_shape(s: Seq<Tok>) -> Option<bool> {
    if s.len() >= 4 && is_ident_text(s[0], "pub"@) && is_ident_text(s[1], "mod"@) && is_ident(
        s[2],
    ) && is_group_with(s[3], Delim::Brace) {
        Some(true)
    } else if s.len() >= 3 && is_ident_text(s[0], "mod"@) && is_ident(s[1]) && is_group_with(
        s[2],
        Delim::Brace,
    ) {
        Some(false)
    } else {
        None
    }
}

/// The module definition read from `s`.
pub open spec fn mod_def_matches(d: ModDef, s: Seq<Tok>, has_pub: bool) -> bool {
    if has_pub {
        &&& d.pub_ident == Some(s[0])
        &&& d.mod_ident == s[1]
        &&& d.mod_name_ident == s[2]
        &&& d.mod_body == s[3]
    } else {
        &&& d.pub_ident is None
        &&& d.mod_ident == s[0]
        &&& d.mod_name_ident == s[1]
        &&& d.mod_body == s[2]
    }
}

proof fn lemma_pub_mod_distinct()
    ensures
        "pub"@ != "mod"@,
{
    reveal_strlit("pub");
    reveal_strlit("mod");
    assert("pub"@[0] != "mod"@[0]);
}

/// Reads a module definition from a token stream.
pub fn parse_mod_def_safe(token_stream: Vec<Tok>) -> (r: Result<ModDef, ParseError>)
    ensures
        match mod_shape(token_stream@) {
            Some(has_pub) => r matches Ok(d) && mod_def_matches(d, token_stream@, has_pub),
            None => r is Err,
        },
{
    proof {
        lemma_pub_mod_distinct();
    }
    let ghost s = token_stream@;
    let mut rest = token_stream;
    let first = match next_tok(&mut rest) {
        Some(t) => t,
        None => {
            return Err(ParseError::UnexpectedEnd);
        },
    };
    let expect = expect_ident("pub");
    let word = match assert_token_safe(&first, &expect, true) {
        Ok(w) => w,
        Err(e) => {
            return Err(e);
        },
    };
    let mut pub_ident: Option<Tok> = None;
    let mod_ident;
    let ghost mut at: int = 1;
    if str_eq(word.as_str(), "pub") {
        pub_ident = Some(first);
        let second = match next_tok(&mut rest) {
            Some(t) => t,
            None => {
                return Err(ParseError::UnexpectedEnd);
            },
        };
        assert(second == s[1]);
        let expect = expect_ident("mod");
        match assert_token_safe(&second, &expect, false) {
            Ok(_) => {},
            Err(e) => {
                return Err(e);
            },
        }
        mod_ident = second;
        proof {
            at = 2;
        }
    } else if str_eq(word.as_str(), "mod") {
        mod_ident = first;
    } else {
        return Err(ParseError::UnexpectedIdent(word));
    }
    assert(rest@ == s.subrange(at, s.len() as int));
    let name = match next_tok(&mut rest) {
        Some(t) => t,
        None => {
            return Err(ParseError::UnexpectedEnd);
        },
    };
    assert(name == s[at]);
    let expect = expect_ident("mod");
    match assert_token_safe(&name, &expect, true) {
        Ok(_) => {},
        Err(e) => {
            return Err(e);
        },
    }
    let body = match next_tok(&mut rest) {
        Some(t) => t,
        None => {
            return Err(ParseError::UnexpectedEnd);
        },
    };
    assert(body == s[at + 1]);
    let expect = expect_group(Delim::Brace);
    match assert_token_safe(&body, &expect, false) {
        Ok(_) => {},
        Err(e) => {
            return Err(e);
        },
    }
    Ok(ModDef { pub_ident, mod_ident, mod_name_ident: name, mod_body: body })
}

/// Reads a module definition, on token streams that hold one.
pub fn parse_mod_def(token_stream: Vec<Tok>) -> (r: ModDef)
    requires
        mod_shape(token_stream@) is Some,
    ensures
        mod_def_matches(r, token_stream@, mod_shape(token_stream@)->Some_0),
{
    match parse_mod_def_safe(token_stream) {
        Ok(d) => d,
        Err(_) => {
            proof {
                assert(false);
            }
            ModDef {
                pub_ident: None,
                mod_ident: expect_ident("fn"),
                mod_name_ident: expect_ident("fn"),
                mod_body: expect_ident("fn"),
            }
        },
    }
}

/// Whether the scan of `contains_tokens` finds the pattern in `body` from index `i` on, with
/// the first `m` tokens of the pattern matched just before `i`. On a token that does not
/// match, the scan starts the pattern over at the next token.
pub open spec fn scan_for_tokens(body: Seq<Tok>, pat: Seq<Tok>, i: int, m: int) -> bool
    decreases body.len() - i,
{
    if i < 0 || i >= body.len() || m < 0 || m >= pat.len() {
        false
    } else if token_match_text(body[i], pat[m], false) is Some {
        if m + 1 >= pat.len() {
            true
        } else {
            scan_for_tokens(body, pat, i + 1, m + 1)
        }
    } else {
        scan_for_tokens(body, pat, i + 1, 0)
    }
}

/// Whether the whole pattern matches the tokens of `body` from index `j` on.
pub open spec fn tokens_match_at(body: Seq<Tok>, pat: Seq<Tok>, j: int) -> bool {
    &&& 0 <= j
    &&& j + pat.len() <= body.len()
    &&& forall|k: int|
        0 <= k < pat.len() ==> token_match_text(#[trigger] body[j + k], pat[k], false) is Some
}

impl ModDef {
    /// The tokens of the definition: `pub` if present, `mod`, the name and the body.
    pub fn build(self) -> (r: Vec<Tok>)
        ensures
            r@ == (match self.pub_ident {
                Some(p) => seq![p],
                None => Seq::empty(),
            }) + seq![self.mod_ident, self.mod_name_ident, self.mod_body],
    {
        let ghost d = self;
        let mut out: Vec<Tok> = Vec::new();
        if let Some(p) = self.pub_ident {
            out.push(p);
        }
        out.push(self.mod_ident);
        out.push(self.mod_name_ident);
        out.push(self.mod_body);
        assert(out@ =~= (match d.pub_ident {
            Some(p) => seq![p],
            None => Seq::empty(),
        }) + seq![d.mod_ident, d.mod_name_ident, d.mod_body]);
        out
    }

    /// Appends tokens to the body; the body becomes a `{ .. }` group of the old contents and
    /// the added tokens (its printed text, which only tokens read from source carry, is left
    /// empty). A body that is not a group is left as it is.
    pub fn add_to_body(&mut self, add: Vec<Tok>)
        ensures
            final(self).pub_ident == old(self).pub_ident,
            final(self).mod_ident == old(self).mod_ident,
            final(self).mod_name_ident == old(self).mod_name_ident,
            match old(self).mod_body {
                Tok::Group(_, children, _) => final(self).mod_body matches Tok::Group(
                    d,
                    c,
                    t,
                ) && d == Delim::Brace && c@ == children@ + add@ && t@.len() == 0,
                _ => final(self).mod_body == old(self).mod_body,
            },
    {
        let mut add = add;
        let mut body = Tok::Punct(' ', false);
        std::mem::swap(&mut body, &mut self.mod_body);
        match body {
            Tok::Group(_, mut children, _) => {
                let ghost before = children@;
                let ghost added = add@;
                children.append(&mut add);
                assert(children@ == before + added);
                self.mod_body = Tok::Group(Delim::Brace, children, String::new());
            },
            other => {
                self.mod_body = other;
            },
        }
    }

    /// The name of the module.
    pub fn get_module_name(&self) -> (r: String)
        requires
            self.mod_name_ident is Ident,
        ensures
            self.mod_name_ident matches Tok::Ident(a) && a@ == r@,
    {
        match &self.mod_name_ident {
            Tok::Ident(a) => a.clone(),
            _ => {
                proof {
                    assert(false);
                }
                String::new()
            },
        }
    }

    /// Renames the module.
    pub fn set_module_name(&mut self, name: &str)
        requires
            old(self).mod_name_ident is Ident,
        ensures
            final(self).mod_name_ident matches Tok::Ident(a) && a@ == name@,
            final(self).pub_ident == old(self).pub_ident,
            final(self).mod_ident == old(self).mod_ident,
            final(self).mod_body == old(self).mod_body,
    {
        self.mod_name_ident = expect_ident(name);
    }

    /// Scans the body for the tokens of `token_stream` (a non-empty pattern), comparing
    /// tokens by kind and value; on a token that does not match, the scan starts the pattern
    /// over at the next token.
    pub fn contains_tokens(&self, token_stream: Vec<Tok>) -> (r: bool)
        requires
            token_stream@.len() > 0,
        ensures
            r == (match self.mod_body {
                Tok::Group(_, children, _) => scan_for_tokens(
                    children@,
                    token_stream@,
                    0,
                    0,
                ),
                _ => false,
            }),
    {
        let pat = token_stream;
        let children = match &self.mod_body {
            Tok::Group(_, c, _) => c,
            _ => {
                return false;
            },
        };
        let n = children.len();
        let plen = pat.len();
        let mut m: usize = 0;
        let mut i: usize = 0;
        while i < n
            invariant
                n == children@.len(),
                pat@ == token_stream@,
                self.mod_body matches Tok::Group(_, cc, _) && cc == *children,
                0 <= i <= n,
                plen == pat@.len(),
                0 <= m < plen,
                scan_for_tokens(children@, pat@, 0, 0) == scan_for_tokens(
                    children@,
                    pat@,
                    i as int,
                    m as int,
                ),
            decreases n - i,
        {
            if does_match_token(&children[i], &pat[m], false).is_ok() {
                m = m + 1;
                if m >= plen {
                    return true;
                }
            } else {
                m = 0;
            }
            i = i + 1;
        }
        false
    }
}

/// When the scan of `contains_tokens` reports the pattern, the pattern really occurs in the
/// body, token for token.
pub proof fn law_found_tokens_occur(body: Seq<Tok>, pat: Seq<Tok>)
    requires
        pat.len() > 0,
        scan_for_tokens(body, pat, 0, 0),
    ensures
        exists|j: int| tokens_match_at(body, pat, j),
{
    lemma_scan_sound(body, pat, 0, 0);
}

proof fn lemma_scan_sound(body: Seq<Tok>, pat: Seq<Tok>, i: int, m: int)
    requires
        0 <= m <= i,
        m < pat.len(),
        forall|k: int|
            0 <= k < m ==> token_match_text(#[trigger] body[i - m + k], pat[k], false) is Some,
        scan_for_tokens(body, pat, i, m),
    ensures
        exists|j: int| tokens_match_at(body, pat, j),
    decreases body.len() - i,
{
    if token_match_text(body[i], pat[m], false) is Some {
        if m + 1 >= pat.len() {
            let j = i - m;
            assert forall|k: int| 0 <= k < pat.len() implies token_match_text(
                #[trigger] body[j + k],
                pat[k],
                false,
            ) is Some by {
                if k < m {
                    assert(body[i - m + k] == body[j + k]);
                } else {
                    assert(k == m);
                }
            }
            assert(tokens_match_at(body, pat, j));
        } else {
            assert forall|k: int| 0 <= k < m + 1 implies token_match_text(
                #[trigger] body[(i + 1) - (m + 1) + k],
                pat[k],
                false,
            ) is Some by {
                if k < m {
                    assert(body[i - m + k] == body[(i + 1) - (m + 1) + k]);
                }
            }
            lemma_scan_sound(body, pat, i + 1, m + 1);
        }
    } else {
        lemma_scan_sound(body, pat, i + 1, 0);
    }
}

} // verus!
