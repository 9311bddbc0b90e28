use vstd::prelude::*;
use vstd::string::*;

use crate::capabilities::{
    capability_grants, check_code_write_grant, check_function_write, code_write_refusal,
    function_write_param, granted_to, grants_of, lvl3_dependency_names, pairs_view, read_requests,
    requested_functions, visit_lvl3_dependency_names,
};
use crate::funcdef::{fn_refusal, fn_shape, parse_func_def_safe, refusal_error};
use crate::kv::{str_pairs, StrMap};
use crate::level0::{L0CodeWriter, L0Core, LibraryObj, RuntimeData};
use crate::module_loading::outputs_view;
use crate::outputs::has_const;
use crate::text::{seq_ends_with, split_once_spec};
use crate::tokens::{ParseError, Tok};
use crate::kv::{keys_unique, lemma_pairs_map_push, lemma_pairs_map_update, pairs_map};
use crate::level0::{signature_pairs, FunctionSignature, L0CodeReader, UserInput};
use crate::module_loading::HiraModule2;
use crate::module_parse::{ModItem, ModModel};
use crate::module_text::{lex_tokens, module_has_body, module_model, module_with_functions};
use crate::shared_files::HiraConfig;
use crate::text::{concat3, str_eq, strings_view, to_string};
use crate::use_paths::{remove_surrounding_quotes, without_surrounding_quotes};

verus! {

// ---------------------------------------------------------------- reading signatures

/// A function's signature as a value of the specification: its name, whether it is `pub`,
/// `async`, `unsafe` and `const`, each parameter (whether a receiver, its name, its type),
/// and its return type.
pub struct SigV {
    pub name: Seq<char>,
    pub is_pub: bool,
    pub is_async: bool,
    pub is_unsafe: bool,
    pub is_const: bool,
    pub inputs: Seq<(bool, Seq<char>, Seq<char>)>,
    pub return_ty: Seq<char>,
}

pub open spec fn inputs_view(v: Seq<UserInput>) -> Seq<(bool, Seq<char>, Seq<char>)> {
    Seq::new(v.len(), |i: int| (v[i].is_self, v[i].name@, v[i].ty@))
}

pub open spec fn sig_view(f: FunctionSignature) -> SigV {
    SigV {
        name: f.name@,
        is_pub: f.is_pub,
        is_async: f.is_async,
        is_unsafe: f.is_unsafe,
        is_const: f.is_const,
        inputs: inputs_view(f.inputs@),
        return_ty: f.return_ty@,
    }
}

/// The signature that is kept of a function item: its name without surrounding quotes.
pub open spec fn read_sig(f: FunctionSignature) -> SigV {
    SigV { name: without_surrounding_quotes(f.name@), ..sig_view(f) }
}

pub open spec fn sig_pairs_view(v: Seq<(String, FunctionSignature)>) -> Seq<(Seq<char>, SigV)> {
    Seq::new(v.len(), |i: int| (v[i].0@, sig_view(v[i].1)))
}

/// The signatures of the module's functions whose names were asked for, by name; a later
/// function of one name replaces an earlier one.
pub open spec fn signatures_of(items: Seq<ModItem>, names: Seq<Seq<char>>) -> Map<Seq<char>, SigV>
    decreases items.len(),
{
    if items.len() == 0 {
        Map::empty()
    } else {
        let before = signatures_of(items.drop_last(), names);
        match items.last() {
            ModItem::Fn(f) => if names.contains(f.name@) {
                before.insert(f.name@, read_sig(f))
            } else {
                before
            },
            _ => before,
        }
    }
}

fn copy_inputs(v: &Vec<UserInput>) -> (r: Vec<UserInput>)
    ensures
        inputs_view(r@) == inputs_view(v@),
{
    let mut out: Vec<UserInput> = Vec::new();
    let n = v.len();
    let mut i: usize = 0;
    while i < n
        invariant
            n == v@.len(),
            i <= n,
            inputs_view(out@) == inputs_view(v@).subrange(0, i as int),
        decreases n - i,
    {
        let ghost b = inputs_view(out@);
        out.push(UserInput { is_self: v[i].is_self, name: v[i].name.clone(), ty: v[i].ty.clone() });
        assert(inputs_view(out@) =~= b.push(inputs_view(v@)[i as int]));
        assert(inputs_view(v@).subrange(0, i + 1) =~= inputs_view(v@).subrange(0, i as int).push(
            inputs_view(v@)[i as int],
        ));
        i = i + 1;
    }
    assert(inputs_view(v@).subrange(0, n as int) =~= inputs_view(v@));
    out
}

/// The signature kept of a function item (see `read_sig`).
fn read_signature(f: &FunctionSignature) -> (r: FunctionSignature)
    ensures
        sig_view(r) == read_sig(*f),
{
    let mut name = f.name.clone();
    remove_surrounding_quotes(&mut name);
    let inputs = copy_inputs(&f.inputs);
    let r = FunctionSignature {
        name,
        is_pub: f.is_pub,
        is_async: f.is_async,
        is_unsafe: f.is_unsafe,
        is_const: f.is_const,
        inputs,
        return_ty: f.return_ty.clone(),
    };
    assert(sig_view(r) =~= read_sig(*f));
    r
}

fn find_signature(v: &Vec<(String, FunctionSignature)>, key: &str) -> (k: usize)
    ensures
        k <= v@.len(),
        k < v@.len() ==> sig_pairs_view(v@)[k as int].0 == key@,
        k == v@.len() ==> forall|j: int| 0 <= j < v@.len() ==> sig_pairs_view(v@)[j].0 != key@,
{
    let n = v.len();
    let mut i: usize = 0;
    while i < n
        invariant
            n == v@.len(),
            i <= n,
            forall|j: int| 0 <= j < i ==> sig_pairs_view(v@)[j].0 != key@,
        decreases n - i,
    {
        if str_eq(v[i].0.as_str(), key) {
            return i;
        }
        i = i + 1;
    }
    i
}

fn name_asked(names: &Vec<String>, name: &str) -> (r: bool)
    ensures
        r == strings_view(names@).contains(name@),
{
    let n = names.len();
    let mut i: usize = 0;
    while i < n
        invariant
            n == names@.len(),
            i <= n,
            forall|j: int| 0 <= j < i ==> strings_view(names@)[j] != name@,
        decreases n - i,
    {
        if str_eq(names[i].as_str(), name) {
            assert(strings_view(names@)[i as int] == name@);
            return true;
        }
        i = i + 1;
    }
    false
}

/// The signatures of the module's functions whose names were asked for (see
/// `signatures_of`), each name once.
pub fn requested_signatures(items: &Vec<ModItem>, names: &Vec<String>) -> (r: Vec<(String, FunctionSignature)>)
    ensures
        keys_unique(sig_pairs_view(r@)),
        pairs_map(sig_pairs_view(r@)) == signatures_of(items@, strings_view(names@)),
{
    let ghost ns = strings_view(names@);
    let mut out: Vec<(String, FunctionSignature)> = Vec::new();
    let n = items.len();
    let mut i: usize = 0;
    proof {
        assert(sig_pairs_view(out@) =~= Seq::<(Seq<char>, SigV)>::empty());
        assert(items@.subrange(0, 0) =~= Seq::<ModItem>::empty());
    }
    while i < n
        invariant
            n == items@.len(),
            ns == strings_view(names@),
            i <= n,
            keys_unique(sig_pairs_view(out@)),
            pairs_map(sig_pairs_view(out@)) == signatures_of(items@.subrange(0, i as int), ns),
        decreases n - i,
    {
        let ghost sub = items@.subrange(0, i + 1);
        proof {
            assert(sub.drop_last() =~= items@.subrange(0, i as int));
            assert(sub.last() == items@[i as int]);
        }
        if let ModItem::Fn(f) = &items[i] {
            if name_asked(names, f.name.as_str()) {
                let sig = read_signature(f);
                let key = f.name.clone();
                let ghost p = sig_pairs_view(out@);
                let ghost kv = (key@, sig_view(sig));
                let m = out.len();
                let k = find_signature(&out, key.as_str());
                if k < m {
                    proof {
                        assert(p[k as int].0 == key@);
                        lemma_pairs_map_update(p, k as int, kv.1);
                    }
                    out.set(k, (key, sig));
                    assert(sig_pairs_view(out@) =~= p.update(k as int, kv));
                } else {
                    proof {
                        lemma_pairs_map_push(p, kv.0, kv.1);
                    }
                    out.push((key, sig));
                    assert(sig_pairs_view(out@) =~= p.push(kv));
                }
            }
        }
        i = i + 1;
    }
    assert(items@.subrange(0, n as int) =~= items@);
    out
}

/// The refusal of a module whose source is no module definition.
pub open spec fn contents_refusal_text(e: Seq<char>) -> Seq<char> {
    "failed to parse module contents as a... module? "@ + e
}

impl L0CodeReader {
    /// Keeps the given signatures, by name.
    pub fn set_signatures(&mut self, v: Vec<(String, FunctionSignature)>)
        requires
            keys_unique(signature_pairs(v@)),
        ensures
            final(self).wf(),
            final(self).function_signatures@ == v@,
            final(self).signatures() == pairs_map(signature_pairs(v@)),
            final(self).current_module_name == old(self).current_module_name,
    {
        self.function_signatures = v;
    }

    /// Reads the signatures that the `CODE_READ` grants of the modules the level-3 module
    /// builds on ask for (see `read_requests`) from the module's source: the source is read as
    /// a module definition, and its functions are picked (see `requested_signatures`). A
    /// request that is not `fn:<name>`, or a source that is no module, is refused, and the
    /// signatures are then left as they were.
    pub fn initialize_capabilities(&mut self, conf: &HiraConfig, module: &HiraModule2) -> (r: Result<(), String>)
        ensures
            ({
                let g = grants_of(conf.modules2@, lvl3_dependency_names(conf.modules2@, *module), "CODE_READ"@);
                match read_requests(g) {
                    Err(m) => r matches Err(e) && e@ == m && *final(self) == *old(self),
                    Ok(names) => {
                        &&& r is Ok ==> final(self).wf() && exists|model: ModModel|
                            pairs_map(sig_pairs_view(final(self).function_signatures@))
                                == #[trigger] signatures_of(model.items@, names)
                        &&& r matches Err(e) ==> *final(self) == *old(self) && exists|x: Seq<char>|
                            e@ == #[trigger] contents_refusal_text(x)
                    },
                }
            }),
            final(self).current_module_name == old(self).current_module_name,
    {
        let deps = visit_lvl3_dependency_names(conf, module);
        let grants = capability_grants(conf, &deps, "CODE_READ");
        let names = match requested_functions(&grants) {
            Ok(v) => v,
            Err(e) => {
                return Err(e);
            },
        };
        let model = match module_model(module.contents.as_str()) {
            Ok(m) => m,
            Err(e) => {
                let m = concat3("failed to parse module contents as a... module? ", e.as_str(), "");
                proof {
                    reveal_strlit("");
                    assert(m@ =~= contents_refusal_text(e@));
                }
                return Err(m);
            },
        };
        let sigs = requested_signatures(&model.items, &names);
        proof {
            assert(keys_unique(signature_pairs(sigs@))) by {
                assert forall|a: int, b: int|
                    0 <= a < sigs@.len() && 0 <= b < sigs@.len() && a != b implies signature_pairs(sigs@)[a].0
                    != signature_pairs(sigs@)[b].0 by {
                    assert(sig_pairs_view(sigs@)[a].0 == signature_pairs(sigs@)[a].0);
                    assert(sig_pairs_view(sigs@)[b].0 == signature_pairs(sigs@)[b].0);
                }
            }
        }
        self.set_signatures(sigs);
        proof {
            assert(pairs_map(sig_pairs_view(self.function_signatures@)) == signatures_of(model.items@, strings_view(names@)));
        }
        Ok(())
    }
}

// ---------------------------------------------------------------- writing functions

/// A short description of why tokens were refused.
pub open spec fn parse_error_text(e: ParseError) -> Seq<char> {
    match e {
        ParseError::UnexpectedEnd => "unexpected end of input"@,
        ParseError::DelimiterMismatch(_, _) => "unexpected brackets"@,
        ParseError::IdentMismatch(x, y) => "expected `"@ + x@ + "`, found `"@ + y@ + "`"@,
        ParseError::PunctMismatch(_, _) => "unexpected punctuation"@,
        ParseError::LiteralMismatch(_, _) => "unexpected literal"@,
        ParseError::KindMismatch => "unexpected kind of token"@,
        ParseError::UnexpectedIdent(w) => "unexpected identifier `"@ + w@ + "`"@,
        ParseError::UnexpectedToken => "unexpected token"@,
        ParseError::UnknownConst(w) => "unknown constant `"@ + w@ + "`"@,
    }
}

/// The description of a parse error (see `parse_error_text`).
pub fn describe_parse_error(e: &ParseError) -> (r: String)
    ensures
        r@ == parse_error_text(*e),
{
    match e {
        ParseError::UnexpectedEnd => to_string("unexpected end of input"),
        ParseError::DelimiterMismatch(_, _) => to_string("unexpected brackets"),
        ParseError::IdentMismatch(x, y) => {
            let mut m = concat3("expected `", x.as_str(), "`, found `");
            m.append(y.as_str());
            m.append("`");
            m
        },
        ParseError::PunctMismatch(_, _) => to_string("unexpected punctuation"),
        ParseError::LiteralMismatch(_, _) => to_string("unexpected literal"),
        ParseError::KindMismatch => to_string("unexpected kind of token"),
        ParseError::UnexpectedIdent(w) => concat3("unexpected identifier `", w.as_str(), "`"),
        ParseError::UnexpectedToken => to_string("unexpected token"),
        ParseError::UnknownConst(w) => concat3("unknown constant `", w.as_str(), "`"),
    }
}

/// The source of a written function: its signature, then its body in braces.
pub open spec fn full_fn_text(sig: Seq<char>, body: Seq<char>) -> Seq<char> {
    sig + " { "@ + body + " }"@
}

/// The refusal of a function whose source does not read as a function definition.
pub open spec fn invalid_sig_text(req: Seq<char>, sig: Seq<char>, why: Seq<char>) -> Seq<char> {
    "Module "@ + req + " provided invalid function signature '"@ + sig + "'\n"@ + why
}

/// What the lexer made of a text: its tokens, or its error.
pub open spec fn lexed_view(l: Result<Vec<Tok>, String>) -> Result<Seq<Tok>, Seq<char>> {
    match l {
        Ok(t) => Ok(t@),
        Err(e) => Err(e@),
    }
}

/// What one requested function gives, with the lexer's reading of its source: nothing for
/// a key without `|`; else the function's source and whether it goes after the module
/// (`global`) rather than inside it, when its source reads as a function definition and the
/// requestor has the grant for it; else the refusal.
pub open spec fn entry_outcome(
    req: Seq<char>,
    key: Seq<char>,
    body: Seq<char>,
    lexed: Result<Seq<Tok>, Seq<char>>,
    g: Seq<(Seq<char>, Seq<char>)>,
) -> Result<Option<(bool, Seq<char>)>, Seq<char>> {
    match split_once_spec(key, "|"@) {
        None => Ok(None),
        Some((kind, sig)) => match lexed {
            Err(e) => Err(invalid_sig_text(req, sig, e)),
            Ok(toks) => match fn_shape(toks) {
                None => Err(invalid_sig_text(req, sig, refusal_description(fn_refusal(toks)))),
                Some(sh) => {
                    let name = without_surrounding_quotes(toks[sh.fn_at + 1]->Ident_0@);
                    let want = function_write_param(kind, name);
                    if g.contains((req, want)) {
                        Ok(Some((kind == "global"@, full_fn_text(sig, body))))
                    } else {
                        Err(
                            "Module "@ + req + " attempted to write global function "@ + name
                                + " but no "@ + want + " capability was defined"@,
                        )
                    }
                },
            },
        },
    }
}

/// The description of why tokens are no function definition.
pub open spec fn refusal_description(k: crate::funcdef::FnRefusal) -> Seq<char> {
    match k {
        crate::funcdef::FnRefusal::End => "unexpected end of input"@,
        crate::funcdef::FnRefusal::Kind => "unexpected kind of token"@,
        crate::funcdef::FnRefusal::Delimiter(_) => "unexpected brackets"@,
        crate::funcdef::FnRefusal::Ident(w) => "unexpected identifier `"@ + w + "`"@,
        crate::funcdef::FnRefusal::Token => "unexpected token"@,
    }
}

proof fn lemma_refusal_text(e: ParseError, k: crate::funcdef::FnRefusal)
    requires
        refusal_error(e, k),
    ensures
        parse_error_text(e) == refusal_description(k),
{
}

/// The functions one requestor writes, inside and after the module, or the first refusal.
pub open spec fn requestor_plan(
    req: Seq<char>,
    entries: Seq<(Seq<char>, Seq<char>)>,
    lexed: Seq<Result<Seq<Tok>, Seq<char>>>,
    g: Seq<(Seq<char>, Seq<char>)>,
) -> Result<(Seq<Seq<char>>, Seq<Seq<char>>), Seq<char>>
    decreases entries.len(),
{
    if entries.len() == 0 {
        Ok((Seq::empty(), Seq::empty()))
    } else {
        match requestor_plan(req, entries.drop_last(), lexed, g) {
            Err(e) => Err(e),
            Ok((ins, aft)) => match entry_outcome(
                req,
                entries.last().0,
                entries.last().1,
                lexed[entries.len() - 1],
                g,
            ) {
                Err(e) => Err(e),
                Ok(None) => Ok((ins, aft)),
                Ok(Some((global, code))) => if global {
                    Ok((ins, aft.push(code)))
                } else {
                    Ok((ins.push(code), aft))
                },
            },
        }
    }
}

pub open spec fn writes_view(w: Seq<(String, StrMap)>) -> Seq<(Seq<char>, Seq<(Seq<char>, Seq<char>)>)> {
    Seq::new(w.len(), |i: int| (w[i].0@, str_pairs(w[i].1.entries@)))
}

pub open spec fn lexed_lists_view(l: Seq<Vec<Result<Vec<Tok>, String>>>) -> Seq<Seq<Result<Seq<Tok>, Seq<char>>>> {
    Seq::new(l.len(), |i: int| Seq::new(l[i]@.len(), |j: int| lexed_view(l[i]@[j])))
}

/// The functions that the requested writes put inside the module and after it, in the
/// order they were requested, or the first refusal: a requestor with no `CODE_WRITE`
/// grant, or a refused function (see `entry_outcome`).
pub open spec fn code_write_plan(
    writes: Seq<(Seq<char>, Seq<(Seq<char>, Seq<char>)>)>,
    g: Seq<(Seq<char>, Seq<char>)>,
    lexed: Seq<Seq<Result<Seq<Tok>, Seq<char>>>>,
) -> Result<(Seq<Seq<char>>, Seq<Seq<char>>), Seq<char>>
    decreases writes.len(),
{
    if writes.len() == 0 {
        Ok((Seq::empty(), Seq::empty()))
    } else {
        match code_write_plan(writes.drop_last(), g, lexed) {
            Err(e) => Err(e),
            Ok((ins, aft)) => {
                let req = writes.last().0;
                if !granted_to(g, req) {
                    Err(code_write_refusal(req))
                } else {
                    match requestor_plan(req, writes.last().1, lexed[writes.len() - 1], g) {
                        Err(e) => Err(e),
                        Ok((i2, a2)) => Ok((ins + i2, aft + a2)),
                    }
                }
            },
        }
    }
}

pub open spec fn plan_view(r: Result<(Vec<String>, Vec<String>), String>) -> Result<(Seq<Seq<char>>, Seq<Seq<char>>), Seq<char>> {
    match r {
        Ok((a, b)) => Ok((strings_view(a@), strings_view(b@))),
        Err(e) => Err(e@),
    }
}

/// One requested function, with the lexer's reading of its source (see `entry_outcome`).
pub fn write_outcome(
    req: &str,
    key: &str,
    body: &str,
    lexed: Result<Vec<Tok>, String>,
    grants: &Vec<(String, String)>,
) -> (r: Result<Option<(bool, String)>, String>)
    ensures
        match entry_outcome(req@, key@, body@, lexed_view(lexed), pairs_view(grants@)) {
            Ok(None) => r matches Ok(None),
            Ok(Some((global, code))) => r matches Ok(Some(x)) && x.0 == global && x.1@ == code,
            Err(m) => r matches Err(e) && e@ == m,
        },
{
    let (kind, sig) = match crate::text::split_once(key, "|") {
        Some(p) => p,
        None => {
            return Ok(None);
        },
    };
    let toks = match lexed {
        Err(e) => {
            let mut m = concat3("Module ", req, " provided invalid function signature '");
            m.append(sig.as_str());
            m.append("'\n");
            m.append(e.as_str());
            return Err(m);
        },
        Ok(t) => t,
    };
    let ghost tv = toks@;
    let d = match parse_func_def_safe(toks, false) {
        Ok(d) => d,
        Err(e) => {
            proof {
                lemma_refusal_text(e, fn_refusal(tv));
            }
            let why = describe_parse_error(&e);
            let mut m = concat3("Module ", req, " provided invalid function signature '");
            m.append(sig.as_str());
            m.append("'\n");
            m.append(why.as_str());
            return Err(m);
        },
    };
    let mut name = match &d.fn_name {
        Tok::Ident(n) => n.clone(),
        _ => String::new(),
    };
    remove_surrounding_quotes(&mut name);
    match check_function_write(req, kind.as_str(), name.as_str(), grants) {
        Err(e) => Err(e),
        Ok(global) => {
            let mut code = sig.clone();
            code.append(" { ");
            code.append(body);
            code.append(" }");
            Ok(Some((global, code)))
        },
    }
}

pub open spec fn lexed_row_view(l: Seq<Result<Vec<Tok>, String>>) -> Seq<Result<Seq<Tok>, Seq<char>>> {
    Seq::new(l.len(), |j: int| lexed_view(l[j]))
}

/// The functions that one requestor writes, with the lexer's reading of each one's source
/// (see `requestor_plan`).
fn plan_requestor(
    req: &str,
    entries: &Vec<(String, String)>,
    lexed: Vec<Result<Vec<Tok>, String>>,
    grants: &Vec<(String, String)>,
) -> (r: Result<(Vec<String>, Vec<String>), String>)
    requires
        lexed@.len() == entries@.len(),
    ensures
        plan_view(r) == requestor_plan(req@, str_pairs(entries@), lexed_row_view(lexed@), pairs_view(grants@)),
{
    let ghost orig = lexed@;
    let ghost lv = lexed_row_view(orig);
    let ghost g = pairs_view(grants@);
    let ghost es = str_pairs(entries@);
    let mut rest = lexed;
    let mut acc: Result<(Vec<String>, Vec<String>), String> = Ok((Vec::new(), Vec::new()));
    proof {
        assert(es.take(0) =~= Seq::<(Seq<char>, Seq<char>)>::empty());
        assert(strings_view(Seq::<String>::empty()) =~= Seq::<Seq<char>>::empty());
        assert(rest@ =~= orig.subrange(0, orig.len() as int));
    }
    let mut j: usize = 0;
    while j < entries.len()
        invariant
            j <= entries@.len(),
            orig.len() == entries@.len(),
            es == str_pairs(entries@),
            lv == lexed_row_view(orig),
            g == pairs_view(grants@),
            rest@ == orig.subrange(j as int, orig.len() as int),
            plan_view(acc) == requestor_plan(req@, es.take(j as int), lv, g),
        decreases entries@.len() - j,
    {
        let l = rest.remove(0);
        proof {
            assert(l == orig[j as int]);
            assert(rest@ =~= orig.subrange(j + 1, orig.len() as int));
            assert(es.take(j + 1).drop_last() =~= es.take(j as int));
            assert(es.take(j + 1).last() == es[j as int]);
            assert(lv[j as int] == lexed_view(l));
        }
        let cur = acc;
        acc = match cur {
            Err(e) => Err(e),
            Ok((ins, aft)) => {
                let o = write_outcome(req, entries[j].0.as_str(), entries[j].1.as_str(), l, grants);
                match o {
                    Err(e) => Err(e),
                    Ok(None) => Ok((ins, aft)),
                    Ok(Some((global, code))) => {
                        let mut ins = ins;
                        let mut aft = aft;
                        let ghost ins0 = ins@;
                        let ghost aft0 = aft@;
                        let ghost cv = code@;
                        if global {
                            aft.push(code);
                            proof {
                                assert(strings_view(aft@) =~= strings_view(aft0).push(cv));
                            }
                        } else {
                            ins.push(code);
                            proof {
                                assert(strings_view(ins@) =~= strings_view(ins0).push(cv));
                            }
                        }
                        Ok((ins, aft))
                    },
                }
            },
        };
        j = j + 1;
    }
    proof {
        assert(es.take(entries@.len() as int) =~= es);
    }
    acc
}

/// The functions that the requested writes put inside the module and after it (see
/// `code_write_plan`), given the lexer's reading of each requested function's source.
pub fn plan_code_writes_with(
    writes: &Vec<(String, StrMap)>,
    grants: &Vec<(String, String)>,
    lexed: Vec<Vec<Result<Vec<Tok>, String>>>,
) -> (r: Result<(Vec<String>, Vec<String>), String>)
    requires
        lexed@.len() == writes@.len(),
        forall|i: int| 0 <= i < writes@.len() ==> #[trigger] lexed@[i]@.len() == writes@[i].1.entries@.len(),
    ensures
        plan_view(r) == code_write_plan(writes_view(writes@), pairs_view(grants@), lexed_lists_view(lexed@)),
{
    let ghost orig = lexed@;
    let ghost lv = lexed_lists_view(orig);
    let ghost g = pairs_view(grants@);
    let ghost ws = writes_view(writes@);
    let mut rest = lexed;
    let mut acc: Result<(Vec<String>, Vec<String>), String> = Ok((Vec::new(), Vec::new()));
    proof {
        assert(ws.take(0) =~= Seq::<(Seq<char>, Seq<(Seq<char>, Seq<char>)>)>::empty());
        assert(strings_view(Seq::<String>::empty()) =~= Seq::<Seq<char>>::empty());
        assert(rest@ =~= orig.subrange(0, orig.len() as int));
    }
    let mut i: usize = 0;
    while i < writes.len()
        invariant
            i <= writes@.len(),
            orig.len() == writes@.len(),
            forall|k: int| 0 <= k < writes@.len() ==> #[trigger] orig[k]@.len() == writes@[k].1.entries@.len(),
            ws == writes_view(writes@),
            lv == lexed_lists_view(orig),
            g == pairs_view(grants@),
            rest@ == orig.subrange(i as int, orig.len() as int),
            plan_view(acc) == code_write_plan(ws.take(i as int), g, lv),
        decreases writes@.len() - i,
    {
        let row = rest.remove(0);
        proof {
            assert(row == orig[i as int]);
            assert(rest@ =~= orig.subrange(i + 1, orig.len() as int));
            assert(ws.take(i + 1).drop_last() =~= ws.take(i as int));
            assert(ws.take(i + 1).last() == ws[i as int]);
            assert(lv[i as int] =~= lexed_row_view(row@));
            assert(row@.len() == writes@[i as int].1.entries@.len());
        }
        let cur = acc;
        acc = match cur {
            Err(e) => Err(e),
            Ok((ins, aft)) => {
                let req = writes[i].0.as_str();
                match check_code_write_grant(req, grants) {
                    Err(m) => Err(m),
                    Ok(()) => match plan_requestor(req, &writes[i].1.entries, row, grants) {
                        Err(e) => Err(e),
                        Ok((i2, a2)) => {
                            let mut ins = ins;
                            let mut aft = aft;
                            let ghost ins0 = ins@;
                            let ghost aft0 = aft@;
                            let mut i2 = i2;
                            let mut a2 = a2;
                            let ghost i2v = i2@;
                            let ghost a2v = a2@;
                            ins.append(&mut i2);
                            aft.append(&mut a2);
                            proof {
                                assert(strings_view(ins@) =~= strings_view(ins0) + strings_view(i2v));
                                assert(strings_view(aft@) =~= strings_view(aft0) + strings_view(a2v));
                            }
                            Ok((ins, aft))
                        },
                    },
                }
            },
        };
        i = i + 1;
    }
    proof {
        assert(ws.take(writes@.len() as int) =~= ws);
    }
    acc
}

/// The lexer's reading of each entry's function source (its signature, then its body in
/// braces); an entry whose key has no `|` is not read.
fn lex_entries(entries: &Vec<(String, String)>) -> (r: Vec<Result<Vec<Tok>, String>>)
    ensures
        r@.len() == entries@.len(),
{
    let mut row: Vec<Result<Vec<Tok>, String>> = Vec::new();
    let mut j: usize = 0;
    while j < entries.len()
        invariant
            j <= entries@.len(),
            row@.len() == j,
        decreases entries@.len() - j,
    {
        let l = match crate::text::split_once(entries[j].0.as_str(), "|") {
            Some((_, sig)) => {
                let mut src = sig;
                src.append(" { ");
                src.append(entries[j].1.as_str());
                src.append(" }");
                lex_tokens(src.as_str())
            },
            None => Ok(Vec::new()),
        };
        row.push(l);
        j = j + 1;
    }
    row
}

/// The lexer's reading of each requested function's source, by requestor.
fn lex_written_functions(writes: &Vec<(String, StrMap)>) -> (r: Vec<Vec<Result<Vec<Tok>, String>>>)
    ensures
        r@.len() == writes@.len(),
        forall|i: int| 0 <= i < writes@.len() ==> #[trigger] r@[i]@.len() == writes@[i].1.entries@.len(),
{
    let mut out: Vec<Vec<Result<Vec<Tok>, String>>> = Vec::new();
    let mut i: usize = 0;
    while i < writes.len()
        invariant
            i <= writes@.len(),
            out@.len() == i,
            forall|k: int| 0 <= k < i ==> #[trigger] out@[k]@.len() == writes@[k].1.entries@.len(),
        decreases writes@.len() - i,
    {
        let row = lex_entries(&writes[i].1.entries);
        out.push(row);
        i = i + 1;
    }
    out
}

/// The functions that the requested writes put inside the module and after it (see
/// `code_write_plan`), each function's source read by the lexer. Which lexer runs depends on
/// the process, so the plan is stated for the lexer's reading, whatever it was.
pub fn plan_code_writes(writes: &Vec<(String, StrMap)>, grants: &Vec<(String, String)>) -> (r: Result<
    (Vec<String>, Vec<String>),
    String,
>)
    ensures
        exists|l: Seq<Vec<Result<Vec<Tok>, String>>>|
            plan_view(r) == code_write_plan(writes_view(writes@), pairs_view(grants@), #[trigger] lexed_lists_view(l)),
{
    let lexed = lex_written_functions(writes);
    let ghost lv = lexed@;
    let r = plan_code_writes_with(writes, grants, lexed);
    assert(plan_view(r) == code_write_plan(writes_view(writes@), pairs_view(grants@), lexed_lists_view(lv)));
    r
}

/// The refusal of a module source that does not read as a module definition.
pub open spec fn stream_refusal_text(name: Seq<char>, e: Seq<char>) -> Seq<char> {
    "Failed to parse stream as module for "@ + name + "\n"@ + e
}

/// The refusal of a module definition without a body.
pub open spec fn no_body_text(name: Seq<char>) -> Seq<char> {
    "Failed to find contents for module "@ + name
}

impl L0CodeWriter {
    /// Writes the requested functions into the module's source `stream`. With nothing
    /// requested the source is given back as it is. Else the source must read as a module
    /// definition with a body; the writes are planned (see `plan_code_writes`) against the
    /// `CODE_WRITE` grants of the modules the level-3 module builds on; the module's functions
    /// are added at the end of its body, and the global ones follow the module, in order,
    /// each after a space (see `after_text`).
    pub fn apply_changes(&self, conf: &HiraConfig, module: &HiraModule2, stream: &str) -> (r: Result<
        String,
        String,
    >)
        ensures
            self.functions@.len() == 0 ==> (r matches Ok(s) && s@ == stream@),
            self.functions@.len() > 0 ==> ({
                let g = grants_of(
                    conf.modules2@,
                    lvl3_dependency_names(conf.modules2@, *module),
                    "CODE_WRITE"@,
                );
                &&& r matches Ok(s) ==> exists|l: Seq<Vec<Result<Vec<Tok>, String>>>|
                    #[trigger] code_write_plan(writes_view(self.functions@), g, lexed_lists_view(l)) is Ok
                    && seq_ends_with(
                        s@,
                        after_text(code_write_plan(writes_view(self.functions@), g, lexed_lists_view(l))->Ok_0.1),
                    )
                &&& r matches Err(e) ==> {
                    ||| e@ == no_body_text(module.name@)
                    ||| exists|x: Seq<char>| e@ == #[trigger] stream_refusal_text(module.name@, x)
                    ||| exists|l: Seq<Vec<Result<Vec<Tok>, String>>>|
                        #[trigger] code_write_plan(writes_view(self.functions@), g, lexed_lists_view(l))
                            == Err::<(Seq<Seq<char>>, Seq<Seq<char>>), Seq<char>>(e@)
                }
            }),
    {
        if self.functions.len() == 0 {
            return Ok(to_string(stream));
        }
        let deps = visit_lvl3_dependency_names(conf, module);
        let grants = capability_grants(conf, &deps, "CODE_WRITE");
        match module_has_body(stream) {
            Err(e) => {
                let m = stream_refusal(module.name.as_str(), e.as_str());
                return Err(m);
            },
            Ok(false) => {
                let m = concat3("Failed to find contents for module ", module.name.as_str(), "");
                proof {
                    reveal_strlit("");
                    assert(m@ =~= no_body_text(module.name@));
                }
                return Err(m);
            },
            Ok(true) => {},
        }
        let (inside, after) = match plan_code_writes(&self.functions, &grants) {
            Ok(p) => p,
            Err(e) => {
                return Err(e);
            },
        };
        let mut out = match module_with_functions(stream, &inside) {
            Some(s) => s,
            None => {
                let m = stream_refusal(module.name.as_str(), "the written functions do not parse");
                return Err(m);
            },
        };
        let ghost printed = out@;
        let ghost av = strings_view(after@);
        let ghost lw = choose|l: Seq<Vec<Result<Vec<Tok>, String>>>|
            plan_view(Ok::<(Vec<String>, Vec<String>), String>((inside, after)))
                == #[trigger] code_write_plan(writes_view(self.functions@), pairs_view(grants@), lexed_lists_view(l));
        assert(av.subrange(0, 0) =~= Seq::<Seq<char>>::empty());
        let mut k: usize = 0;
        while k < after.len()
            invariant
                k <= after@.len(),
                av == strings_view(after@),
                out@ == printed + after_text(av.subrange(0, k as int)),
            decreases after@.len() - k,
        {
            out.append(" ");
            out.append(after[k].as_str());
            assert(av.subrange(0, k + 1).drop_last() =~= av.subrange(0, k as int));
            k = k + 1;
        }
        assert(av.subrange(0, after@.len() as int) =~= av);
        proof {
            let t = out@;
            let a = after_text(av);
            assert(t.subrange(t.len() - a.len(), t.len() as int) =~= a);
        }
        Ok(out)
    }
}

/// The global functions as they follow the module: each after a space.
pub open spec fn after_text(fns: Seq<Seq<char>>) -> Seq<char>
    decreases fns.len(),
{
    if fns.len() == 0 {
        Seq::empty()
    } else {
        after_text(fns.drop_last()) + " "@ + fns.last()
    }
}

fn stream_refusal(name: &str, e: &str) -> (r: String)
    ensures
        r@ == stream_refusal_text(name@, e@),
{
    let mut m = concat3("Failed to parse stream as module for ", name, "\n");
    m.append(e);
    m
}

impl L0Core {
    /// Remembers the level-3 module being built and the crate it is built in.
    pub fn initialize_capabilities(&mut self, module: &HiraModule2, crate_name: &str)
        ensures
            final(self).lvl3_module_name@ == module.name@,
            final(self).crate_name@ == crate_name@,
            final(self).compiler_error_message@ == old(self).compiler_error_message@,
            final(self).compiler_warning_message@ == old(self).compiler_warning_message@,
            final(self).current_module_name@ == old(self).current_module_name@,
            final(self).module_outputs@ == old(self).module_outputs@,
    {
        self.lvl3_module_name = module.name.clone();
        self.crate_name = to_string(crate_name);
    }
}

impl LibraryObj {
    /// Prepares the capabilities for the level-3 module `module` of the crate `crate_name`:
    /// the core remembers both, and the code reader reads the requested signatures (see
    /// `L0CodeReader::initialize_capabilities`).
    pub fn initialize_capabilities(&mut self, conf: &HiraConfig, module: &HiraModule2, crate_name: &str) -> (r:
        Result<(), String>)
        ensures
            final(self).l0_core.lvl3_module_name@ == module.name@,
            final(self).l0_core.crate_name@ == crate_name@,
            final(self).l0_core.module_outputs@ == old(self).l0_core.module_outputs@,
            ({
                let g = grants_of(conf.modules2@, lvl3_dependency_names(conf.modules2@, *module), "CODE_READ"@);
                match read_requests(g) {
                    Err(m) => r matches Err(e) && e@ == m,
                    Ok(names) => r is Ok ==> final(self).l0_code_reader.wf() && exists|model: ModModel|
                        pairs_map(sig_pairs_view(final(self).l0_code_reader.function_signatures@))
                            == #[trigger] signatures_of(model.items@, names),
                }
            }),
    {
        self.l0_core.initialize_capabilities(module, crate_name);
        self.l0_code_reader.initialize_capabilities(conf, module)
    }

    /// Applies what the modules asked for to the level-3 module whose source is `stream`,
    /// stage by stage, stopping at the first refusal: the core's diagnostics and outputs
    /// (`L0Core::apply_changes`), the appended lines (`L0AppendFile::apply_changes`, which
    /// gives the files to write), the written functions (`L0CodeWriter::apply_changes`) and
    /// the runtime lines (`L0RuntimeCreator::apply_changes`, which gives the runtimes with
    /// their lines). The result is the source, the files and the runtimes.
    pub fn apply_changes(&mut self, conf: &mut HiraConfig, module: &mut HiraModule2, stream: &str) -> (r: Result<
        (String, Vec<(String, String)>, Vec<(String, RuntimeData)>),
        String,
    >)
        requires
            old(self).l0_core.wf(),
            old(module).resolved_outputs.wf(),
            !has_const(outputs_view(old(module).outputs@)),
        ensures
            r matches Ok((_, _, rts)) ==> rts@ == old(self).l0_runtime_creator.runtimes@,
            r is Ok ==> final(self).l0_append_file.shared_output_data@.len() == 0
                && final(self).l0_runtime_creator.runtimes@.len() == 0,
            final(module).name@ == old(module).name@,
            final(module).outputs@ == old(module).outputs@,
            final(conf).modules2 == old(conf).modules2,
    {
        let with_core = match self.l0_core.apply_changes(conf, module, stream) {
            Ok(s) => s,
            Err(e) => {
                return Err(e);
            },
        };
        let files = match self.l0_append_file.apply_changes(conf, module) {
            Ok(f) => f,
            Err(e) => {
                return Err(e);
            },
        };
        let written = match self.l0_code_writer.apply_changes(conf, module, with_core.as_str()) {
            Ok(s) => s,
            Err(e) => {
                return Err(e);
            },
        };
        let runtimes = match self.l0_runtime_creator.apply_changes(conf, module) {
            Ok(v) => v,
            Err(e) => {
                return Err(e);
            },
        };
        Ok((written, files, runtimes))
    }
}

} // verus!
