use vstd::prelude::*;
use vstd::string::*;

use crate::attributes::{
    attr_error_view, attr_view, entries_view, parse_attr, try_get_attribute_value, AttrFail,
    AttrV, AttrError, AttributeValue, ConstTable,
};
use crate::text::{concat3, decimal, push_decimal, str_eq, strings_view, to_string};
use crate::tokens::{Delim, Tok};

verus! {

/// A module invocation: the module's name and the map it is given.
pub struct ModuleInput {
    pub module_name: String,
    pub module_json: Vec<(String, AttributeValue)>,
}

/// The text with every surrounding pair of double quotes taken off, as a loop that takes
/// the first and the last character off while the text starts and ends with `"` does it
/// (a lone `"` is taken off whole).
pub open spec fn strip_all_quotes(s: Seq<char>) -> Seq<char>
    decreases s.len(),
{
    if s.len() >= 1 && s[0] == '"' && s.last() == '"' {
        if s.len() == 1 {
            Seq::empty()
        } else {
            strip_all_quotes(s.subrange(1, s.len() - 1))
        }
    } else {
        s
    }
}

/// Takes every surrounding pair of double quotes off (see `strip_all_quotes`).
pub fn strip_quotes_loop(s: &str) -> (r: String)
    ensures
        r@ == strip_all_quotes(s@),
{
    let n = s.unicode_len();
    let mut lo: usize = 0;
    let mut hi: usize = n;
    assert(s@.subrange(0, n as int) =~= s@);
    while hi > lo && s.get_char(lo) == '"' && s.get_char(hi - 1) == '"'
        invariant
            n == s@.len(),
            lo <= hi <= n,
            strip_all_quotes(s@.subrange(lo as int, hi as int)) == strip_all_quotes(s@),
        decreases hi - lo,
    {
        let ghost t = s@.subrange(lo as int, hi as int);
        assert(t[0] == s@[lo as int]);
        assert(t.last() == s@[hi - 1]);
        if hi - lo == 1 {
            assert(strip_all_quotes(t) == Seq::<char>::empty());
            return String::new();
        }
        assert(t.subrange(1, t.len() - 1) =~= s@.subrange(lo + 1, hi - 1));
        lo = lo + 1;
        hi = hi - 1;
    }
    proof {
        let t = s@.subrange(lo as int, hi as int);
        if t.len() >= 1 {
            assert(t[0] == s@[lo as int]);
            assert(t.last() == s@[hi - 1]);
        }
    }
    to_string(s.substring_char(lo, hi))
}

/// Why a module invocation's attribute was refused.
#[derive(Debug)]
pub enum ModuleInputError {
    /// No tokens at all.
    MissingStream,
    /// The first token is not a string literal.
    FirstArgNotLiteral(Tok),
    /// The first argument is not followed by `,`.
    MissingPunct,
    /// Nothing follows the `,`.
    MissingSecondArg,
    /// The second argument is not a `{ .. }` group (the module's name).
    NotObject(String),
    /// The second argument is not a well-formed value.
    Attribute(AttrError),
    /// The second argument is not a map.
    NotMap(AttributeValue),
}

pub enum ModuleInputFail {
    MissingStream,
    FirstArgNotLiteral,
    MissingPunct,
    MissingSecondArg,
    NotObject(Seq<char>),
    Attribute(AttrFail),
    NotMap(AttrV),
}

pub open spec fn module_input_error_view(e: ModuleInputError) -> ModuleInputFail {
    match e {
        ModuleInputError::MissingStream => ModuleInputFail::MissingStream,
        ModuleInputError::FirstArgNotLiteral(_) => ModuleInputFail::FirstArgNotLiteral,
        ModuleInputError::MissingPunct => ModuleInputFail::MissingPunct,
        ModuleInputError::MissingSecondArg => ModuleInputFail::MissingSecondArg,
        ModuleInputError::NotObject(n) => ModuleInputFail::NotObject(n@),
        ModuleInputError::Attribute(a) => ModuleInputFail::Attribute(attr_error_view(a)),
        ModuleInputError::NotMap(v) => ModuleInputFail::NotMap(attr_view(v)),
    }
}

/// How a module invocation `("name", { .. })` reads: the name without its quotes and the
/// entries of the map, or why it does not read.
pub open spec fn module_input_spec(attr: Seq<Tok>, consts: Seq<(String, String)>) -> Result<
    (Seq<char>, Seq<(Seq<char>, AttrV)>),
    ModuleInputFail,
> {
    if attr.len() == 0 {
        Err(ModuleInputFail::MissingStream)
    } else {
        match attr[0] {
            Tok::Literal(s) => {
                let name = strip_all_quotes(s@);
                if attr.len() < 2 || !(attr[1] matches Tok::Punct(c, _) && c == ',') {
                    Err(ModuleInputFail::MissingPunct)
                } else if attr.len() < 3 {
                    Err(ModuleInputFail::MissingSecondArg)
                } else if !(attr[2] matches Tok::Group(d, _, _) && d == Delim::Brace) {
                    Err(ModuleInputFail::NotObject(name))
                } else {
                    match parse_attr(attr[2], consts) {
                        Err(e) => Err(ModuleInputFail::Attribute(e)),
                        Ok(AttrV::Table(m)) => Ok((name, m)),
                        Ok(v) => Err(ModuleInputFail::NotMap(v)),
                    }
                }
            },
            _ => Err(ModuleInputFail::FirstArgNotLiteral),
        }
    }
}

/// Reads a module invocation `("name", { .. })` (see `module_input_spec`); tokens after the
/// map are not looked at.
pub fn get_module_input(attr: Vec<Tok>, consts: &ConstTable) -> (r: Result<ModuleInput, ModuleInputError>)
    ensures
        match module_input_spec(attr@, consts.entries@) {
            Ok(p) => r matches Ok(m) && m.module_name@ == p.0 && entries_view(m.module_json@) == p.1,
            Err(f) => r matches Err(e) && module_input_error_view(e) == f,
        },
{
    let mut attr = attr;
    if attr.len() == 0 {
        return Err(ModuleInputError::MissingStream);
    }
    let module_name = match &attr[0] {
        Tok::Literal(s) => strip_quotes_loop(s.as_str()),
        _ => {
            let first = attr.remove(0);
            return Err(ModuleInputError::FirstArgNotLiteral(first));
        },
    };
    if attr.len() < 2 {
        return Err(ModuleInputError::MissingPunct);
    }
    match &attr[1] {
        Tok::Punct(c, _) => {
            if *c != ',' {
                return Err(ModuleInputError::MissingPunct);
            }
        },
        _ => {
            return Err(ModuleInputError::MissingPunct);
        },
    }
    if attr.len() < 3 {
        return Err(ModuleInputError::MissingSecondArg);
    }
    match &attr[2] {
        Tok::Group(d, _, _) => {
            if *d != Delim::Brace {
                return Err(ModuleInputError::NotObject(module_name));
            }
        },
        _ => {
            return Err(ModuleInputError::NotObject(module_name));
        },
    }
    match try_get_attribute_value(&attr[2], consts) {
        Err(e) => Err(ModuleInputError::Attribute(e)),
        Ok(AttributeValue::Table(m)) => Ok(ModuleInput { module_name, module_json: m }),
        Ok(v) => Err(ModuleInputError::NotMap(v)),
    }
}

/// The deploy region as a module script sees it: without its surrounding quotes.
pub fn module_scope_region(deploy_region: &str) -> (r: String)
    ensures
        r@ == strip_all_quotes(deploy_region@),
{
    strip_quotes_loop(deploy_region)
}

/// What a module script must have: a function named `fn_name` taking one parameter. The
/// functions are given by name and number of parameters, in the script's order.
pub open spec fn module_fn_problem(
    module_name: Seq<char>,
    fn_name: Seq<char>,
    fns: Seq<(Seq<char>, nat)>,
) -> Option<Seq<char>> {
    if exists|i: int| 0 <= i < fns.len() && fns[i].0 == fn_name && fns[i].1 != 1 {
        let i = choose|i: int|
            0 <= i < fns.len() && fns[i].0 == fn_name && fns[i].1 != 1 && forall|j: int|
                0 <= j < i ==> !(fns[j].0 == fn_name && fns[j].1 != 1);
        Some(
            "fn "@ + fn_name + "() {} was found but it takes "@ + decimal(fns[i].1)
                + " parameters, expected 1"@,
        )
    } else if !(exists|i: int| 0 <= i < fns.len() && fns[i].0 == fn_name) {
        Some("hira::module '"@ + module_name + "' is missing a fn "@ + fn_name + "(x) {} function."@)
    } else {
        None
    }
}

pub open spec fn fns_view(v: Seq<(String, u64)>) -> Seq<(Seq<char>, nat)> {
    Seq::new(v.len(), |i: int| (v[i].0@, v[i].1 as nat))
}

/// Checks that the script has the function to call, taking one parameter (see
/// `module_fn_problem`).
pub fn check_module_fn(module_name: &str, fn_name: &str, fns: &Vec<(String, u64)>) -> (r: Result<
    (),
    String,
>)
    ensures
        match module_fn_problem(module_name@, fn_name@, fns_view(fns@)) {
            Some(m) => r matches Err(e) && e@ == m,
            None => r is Ok,
        },
{
    let ghost v = fns_view(fns@);
    let n = fns.len();
    let mut found = false;
    let mut i: usize = 0;
    while i < n
        invariant
            n == fns@.len(),
            v == fns_view(fns@),
            i <= n,
            forall|j: int| 0 <= j < i ==> !(v[j].0 == fn_name@ && v[j].1 != 1),
            found == exists|j: int| 0 <= j < i && v[j].0 == fn_name@,
        decreases n - i,
    {
        if str_eq(fns[i].0.as_str(), fn_name) {
            if fns[i].1 != 1 {
                let mut msg = concat3("fn ", fn_name, "() {} was found but it takes ");
                push_decimal(&mut msg, fns[i].1);
                msg.append(" parameters, expected 1");
                proof {
                    let k = choose|k: int|
                        0 <= k < v.len() && v[k].0 == fn_name@ && v[k].1 != 1 && forall|j: int|
                            0 <= j < k ==> !(v[j].0 == fn_name@ && v[j].1 != 1);
                    assert(v[i as int].0 == fn_name@ && v[i as int].1 != 1);
                    if k < i {
                    } else if k > i {
                    }
                    assert(k == i);
                }
                return Err(msg);
            }
            found = true;
        }
        i = i + 1;
    }
    if !found {
        let mut msg = concat3("hira::module '", module_name, "' is missing a fn ");
        msg.append(fn_name);
        msg.append("(x) {} function.");
        return Err(msg);
    }
    Ok(())
}

/// The message for a script function that failed: one that did not give back its input,
/// or another error with its text.
pub fn module_run_error(module_name: &str, fn_name: &str, output_mismatch: bool, error_text: &str) -> (r:
    String)
    ensures
        output_mismatch ==> r@ == "Error in module '"@ + module_name@ + "'. fn "@ + fn_name@
            + "(x) { } must return the first input parameter"@,
        !output_mismatch ==> r@ == "Error running module '"@ + module_name@ + "': "@ + error_text@,
{
    if output_mismatch {
        let mut m = concat3("Error in module '", module_name, "'. fn ");
        m.append(fn_name);
        m.append("(x) { } must return the first input parameter");
        m
    } else {
        let mut m = concat3("Error running module '", module_name, "': ");
        m.append(error_text);
        m
    }
}

// ---------------------------------------------------------------- code around an item

/// Code that module scripts add before and after the item they get.
pub struct GlobalSettings {
    pub add_code_after: Vec<String>,
    pub add_code_before: Vec<String>,
}

/// Whether `proc_macro2` reads the text as a token stream: `None`, or else its error
/// printed. Which lexer runs (the compiler's or the fallback) depends on the process, so
/// nothing is said of the verdict; the functions that take it are verified for each one.
#[verifier::external_body]
fn lex_check(s: &str) -> (r: Option<String>) {
    match <proc_macro2::TokenStream as std::str::FromStr>::from_str(s) {
        Ok(_) => None,
        Err(e) => Some(format!("{}", e)),
    }
}

pub open spec fn refusal_text(which: Seq<char>, s: Seq<char>, e: Seq<char>) -> Seq<char> {
    "Error creating TokenStream in `"@ + which + "` from "@ + s + ". "@ + e
}

impl GlobalSettings {
    pub fn new() -> (r: GlobalSettings)
        ensures
            r.add_code_after@.len() == 0,
            r.add_code_before@.len() == 0,
    {
        GlobalSettings { add_code_after: Vec::new(), add_code_before: Vec::new() }
    }

    /// Whether the code was already asked to be added after an item.
    fn seen_before(seen: &Vec<String>, s: &str) -> (r: bool)
        ensures
            r == strings_view(seen@).contains(s@),
    {
        let n = seen.len();
        let mut i: usize = 0;
        while i < n
            invariant
                n == seen@.len(),
                i <= n,
                forall|j: int| 0 <= j < i ==> strings_view(seen@)[j] != s@,
            decreases n - i,
        {
            if str_eq(seen[i].as_str(), s) {
                assert(strings_view(seen@)[i as int] == s@);
                return true;
            }
            i = i + 1;
        }
        false
    }

    /// Adds code after the item, given the lexer's verdict on it (`None` when it reads as a
    /// token stream, else the lexer's error), unless the same code was added after an item
    /// before (as `seen` records): a module may ask for the same helper many times and it is
    /// written once. Code that is no token stream is refused, after it was recorded.
    pub fn add_code_after_checked(&mut self, seen: &mut Vec<String>, s: &str, lex: Option<String>) -> (r:
        Result<(), String>)
        ensures
            (strings_view(final(self).add_code_after@), strings_view(final(seen)@))
                == code_after_step(
                strings_view(old(self).add_code_after@),
                strings_view(old(seen)@),
                s@,
                lex is None,
            ),
            strings_view(old(seen)@).contains(s@) ==> r is Ok && final(self).add_code_after@
                == old(self).add_code_after@ && final(seen)@ == old(seen)@,
            !strings_view(old(seen)@).contains(s@) ==> {
                &&& strings_view(final(seen)@) == strings_view(old(seen)@).push(s@)
                &&& match lex {
                    Some(e) => (r matches Err(m) && m@ == refusal_text("add_code_after"@, s@, e@))
                        && final(self).add_code_after@ == old(self).add_code_after@,
                    None => r is Ok && strings_view(final(self).add_code_after@) == strings_view(
                        old(self).add_code_after@,
                    ).push(s@),
                }
            },
            final(self).add_code_before@ == old(self).add_code_before@,
    {
        if Self::seen_before(seen, s) {
            return Ok(());
        }
        let ghost before = strings_view(seen@);
        seen.push(to_string(s));
        assert(strings_view(seen@) =~= before.push(s@));
        match lex {
            Some(e) => {
                let mut m = concat3("Error creating TokenStream in `add_code_after` from ", s, ". ");
                m.append(e.as_str());
                proof {
                    reveal_strlit("add_code_after");
                    reveal_strlit("Error creating TokenStream in `add_code_after` from ");
                    reveal_strlit("Error creating TokenStream in `");
                    reveal_strlit("` from ");
                    assert("Error creating TokenStream in `add_code_after` from "@ =~= "Error creating TokenStream in `"@
                        + "add_code_after"@ + "` from "@);
                }
                Err(m)
            },
            None => {
                let ghost b = strings_view(self.add_code_after@);
                self.add_code_after.push(to_string(s));
                assert(strings_view(self.add_code_after@) =~= b.push(s@));
                Ok(())
            },
        }
    }

    /// Adds code after the item (see `add_code_after_checked`), asking the lexer whether the
    /// code reads as a token stream when it was not seen before. Whatever the lexer says,
    /// seen code changes nothing, and unseen code is recorded and either added or refused
    /// with the lexer's message.
    pub fn add_code_after(&mut self, seen: &mut Vec<String>, s: &str) -> (r: Result<(), String>)
        ensures
            strings_view(old(seen)@).contains(s@) ==> r is Ok && final(self).add_code_after@
                == old(self).add_code_after@ && final(seen)@ == old(seen)@,
            !strings_view(old(seen)@).contains(s@) ==> {
                &&& strings_view(final(seen)@) == strings_view(old(seen)@).push(s@)
                &&& r is Ok ==> strings_view(final(self).add_code_after@) == strings_view(
                    old(self).add_code_after@,
                ).push(s@)
                &&& r matches Err(m) ==> final(self).add_code_after@ == old(self).add_code_after@
                    && exists|e: Seq<char>| m@ == refusal_text("add_code_after"@, s@, e)
            },
            final(self).add_code_before@ == old(self).add_code_before@,
    {
        if Self::seen_before(seen, s) {
            return Ok(());
        }
        let lex = lex_check(s);
        let ghost lv = lex;
        let r = self.add_code_after_checked(seen, s, lex);
        proof {
            match lv {
                Some(e) => {
                    assert(r matches Err(m) && m@ == refusal_text("add_code_after"@, s@, e@));
                },
                None => {},
            }
        }
        r
    }

    /// Adds code before the item, given the lexer's verdict on it; code that is no token
    /// stream is refused.
    pub fn add_code_before_checked(&mut self, s: &str, lex: Option<String>) -> (r: Result<(), String>)
        ensures
            final(self).add_code_after@ == old(self).add_code_after@,
            match lex {
                Some(e) => (r matches Err(m) && m@ == refusal_text("add_code_before"@, s@, e@))
                    && final(self).add_code_before@ == old(self).add_code_before@,
                None => r is Ok && strings_view(final(self).add_code_before@) == strings_view(
                    old(self).add_code_before@,
                ).push(s@),
            },
    {
        match lex {
            Some(e) => {
                let mut m = concat3("Error creating TokenStream in `add_code_before` from ", s, ". ");
                m.append(e.as_str());
                proof {
                    reveal_strlit("add_code_before");
                    reveal_strlit("Error creating TokenStream in `add_code_before` from ");
                    reveal_strlit("Error creating TokenStream in `");
                    reveal_strlit("` from ");
                    assert("Error creating TokenStream in `add_code_before` from "@ =~= "Error creating TokenStream in `"@
                        + "add_code_before"@ + "` from "@);
                }
                Err(m)
            },
            None => {
                let ghost b = strings_view(self.add_code_before@);
                self.add_code_before.push(to_string(s));
                assert(strings_view(self.add_code_before@) =~= b.push(s@));
                Ok(())
            },
        }
    }

    /// Adds code before the item (see `add_code_before_checked`), asking the lexer whether
    /// it reads as a token stream: it is either added or refused with the lexer's message.
    pub fn add_code_before(&mut self, s: &str) -> (r: Result<(), String>)
        ensures
            final(self).add_code_after@ == old(self).add_code_after@,
            r is Ok ==> strings_view(final(self).add_code_before@) == strings_view(
                old(self).add_code_before@,
            ).push(s@),
            r matches Err(m) ==> final(self).add_code_before@ == old(self).add_code_before@
                && exists|e: Seq<char>| m@ == refusal_text("add_code_before"@, s@, e),
    {
        let lex = lex_check(s);
        let ghost lv = lex;
        let r = self.add_code_before_checked(s, lex);
        proof {
            match lv {
                Some(e) => {
                    assert(r matches Err(m) && m@ == refusal_text("add_code_before"@, s@, e@));
                },
                None => {},
            }
        }
        r
    }

    /// The code of the built item: the code before it, the item, then the code after it.
    pub fn arrange(&self, item: String) -> (r: Vec<String>)
        ensures
            strings_view(r@) == strings_view(self.add_code_before@) + seq![item@]
                + strings_view(self.add_code_after@),
    {
        let mut out: Vec<String> = Vec::new();
        let n = self.add_code_before.len();
        let mut i: usize = 0;
        while i < n
            invariant
                n == self.add_code_before@.len(),
                i <= n,
                strings_view(out@) == strings_view(self.add_code_before@).subrange(0, i as int),
            decreases n - i,
        {
            let ghost b = strings_view(out@);
            let c = self.add_code_before[i].clone();
            assert(c@ == strings_view(self.add_code_before@)[i as int]);
            out.push(c);
            assert(strings_view(out@) =~= b.push(strings_view(self.add_code_before@)[i as int]));
            assert(strings_view(out@) =~= strings_view(self.add_code_before@).subrange(0, i + 1));
            i = i + 1;
        }
        let ghost b = strings_view(out@);
        let ghost item_v = item@;
        out.push(item);
        assert(strings_view(out@) =~= b.push(item_v));
        let m = self.add_code_after.len();
        let mut k: usize = 0;
        let ghost head = strings_view(out@);
        assert(strings_view(self.add_code_before@).subrange(0, n as int) =~= strings_view(
            self.add_code_before@,
        ));
        while k < m
            invariant
                m == self.add_code_after@.len(),
                k <= m,
                strings_view(out@) == head + strings_view(self.add_code_after@).subrange(0, k as int),
            decreases m - k,
        {
            let ghost b2 = strings_view(out@);
            let c = self.add_code_after[k].clone();
            assert(c@ == strings_view(self.add_code_after@)[k as int]);
            out.push(c);
            assert(strings_view(out@) =~= b2.push(strings_view(self.add_code_after@)[k as int]));
            assert(strings_view(out@) =~= head + strings_view(self.add_code_after@).subrange(
                0,
                k + 1,
            ));
            k = k + 1;
        }
        assert(strings_view(self.add_code_after@).subrange(0, m as int) =~= strings_view(
            self.add_code_after@,
        ));
        assert(head == strings_view(self.add_code_before@) + seq![item_v]);
        out
    }
}

/// The code after the item and the code seen so far, once `s` was asked to be added after.
pub open spec fn code_after_step(
    after: Seq<Seq<char>>,
    seen: Seq<Seq<char>>,
    s: Seq<char>,
    lexes: bool,
) -> (Seq<Seq<char>>, Seq<Seq<char>>) {
    if seen.contains(s) {
        (after, seen)
    } else if lexes {
        (after.push(s), seen.push(s))
    } else {
        (after, seen.push(s))
    }
}

/// Asking twice to add the same code after items adds it at most once: the second request
/// changes nothing, whatever the lexer says of it either time.
pub proof fn law_code_after_added_once(
    after: Seq<Seq<char>>,
    seen: Seq<Seq<char>>,
    s: Seq<char>,
    first: bool,
    second: bool,
)
    ensures
        ({
            let once = code_after_step(after, seen, s, first);
            code_after_step(once.0, once.1, s, second) == once
        }),
{
    if !seen.contains(s) {
        assert(seen.push(s)[seen.len() as int] == s);
    }
}

/// The functions that `rhai` finds in a script (name and number of parameters), or its
/// parse error printed. `rhai` keeps the functions in a map whose hasher is seeded when
/// `rhai` is built, so the order in which they come differs from one build to another, and
/// nothing is said of the result; `script_outcome` is verified for each one.
#[verifier::external_body]
fn compile_script_functions(script: &str) -> (r: Result<Vec<(String, u64)>, String>) {
    match rhai::Engine::new().compile(script) {
        Ok(ast) => Ok(ast.iter_functions().map(|f| (f.name.to_string(), f.params.len() as u64)).collect()),
        Err(e) => Err(format!("{}", e)),
    }
}

/// What a module script gives, from what compiling it gave: a script that does not parse
/// is refused with the parser's message; else it must have the function to call (see
/// `module_fn_problem`).
pub open spec fn script_problem(
    module_name: Seq<char>,
    fn_name: Seq<char>,
    compiled: Result<Seq<(Seq<char>, nat)>, Seq<char>>,
) -> Option<Seq<char>> {
    match compiled {
        Err(e) => Some("Failed to parse module '"@ + module_name + "' as rhai script. "@ + e),
        Ok(fns) => module_fn_problem(module_name, fn_name, fns),
    }
}

pub open spec fn compiled_view(c: Result<Vec<(String, u64)>, String>) -> Result<
    Seq<(Seq<char>, nat)>,
    Seq<char>,
> {
    match c {
        Ok(v) => Ok(fns_view(v@)),
        Err(e) => Err(e@),
    }
}

/// Checks a compiled module script (see `script_problem`).
pub fn script_outcome(module_name: &str, fn_name: &str, compiled: &Result<Vec<(String, u64)>, String>) -> (r:
    Result<(), String>)
    ensures
        match script_problem(module_name@, fn_name@, compiled_view(*compiled)) {
            Some(m) => r matches Err(e) && e@ == m,
            None => r is Ok,
        },
{
    match compiled {
        Err(e) => {
            let mut m = concat3("Failed to parse module '", module_name, "' as rhai script. ");
            m.append(e.as_str());
            Err(m)
        },
        Ok(fns) => check_module_fn(module_name, fn_name, fns),
    }
}

/// Compiles the text of a module script and checks that it has the function to call,
/// taking one parameter. Whatever the compiler gives, the result is the check of that (see
/// `script_problem`).
pub fn check_module_script(module_name: &str, fn_name: &str, script: &str) -> (r: Result<(), String>)
    ensures
        exists|c: Result<Seq<(Seq<char>, nat)>, Seq<char>>|
            match #[trigger] script_problem(module_name@, fn_name@, c) {
                Some(m) => r matches Err(e) && e@ == m,
                None => r is Ok,
            },
{
    let compiled = compile_script_functions(script);
    let r = script_outcome(module_name, fn_name, &compiled);
    proof {
        let c = compiled_view(compiled);
        assert(match script_problem(module_name@, fn_name@, c) {
            Some(m) => r matches Err(e) && e@ == m,
            None => r is Ok,
        });
    }
    r
}

} // verus!
