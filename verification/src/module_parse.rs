use vstd::prelude::*;
use vstd::string::*;

use crate::capabilities::capability_params_of;
use crate::kv::StrMap;
use crate::level0::{FunctionSignature, UserInput};
use crate::module_loading::{outputs_view, HiraModule2, ModuleLevel, OutputType, OutputV};
use crate::syn_model::{has_derive, has_derive_spec, AttrItem, ItemVisibility};
use crate::text::{str_eq, strings_view, to_string};
use crate::use_paths::{
    is_path_keyword, iterate_item_tree, remove_surrounding_quotes, use_entries,
    without_surrounding_quotes, UseSpec, entries_of,
};

verus! {

/// An expression of a constant, as far as the module parser reads it.
#[derive(Debug)]
pub enum ExprModel {
    Array(Vec<ExprModel>),
    Reference(Box<ExprModel>),
    Tuple(Vec<ExprModel>),
    /// a literal: its token as printed, and whether it is a string literal
    Lit(String, bool),
    Other,
}

/// An item of a module, as far as the module parser reads it.
#[derive(Debug)]
pub enum ModItem {
    /// a function: its signature (its name as the identifier prints, each parameter's
    /// pattern and type as printed, a receiver as `&self` with no type)
    Fn(FunctionSignature),
    /// a struct: its name, its attributes and its text as printed
    Struct { name: String, attrs: Vec<AttrItem>, text: String },
    Use(UseSpec),
    /// a module: its name, visibility and items
    Mod { name: String, vis: ItemVisibility, items: Vec<ModItem> },
    /// a constant: its name, its value as printed and its value as read
    Const { name: String, value_text: String, expr: ExprModel },
    /// an impl: the first segment of the trait's path (for a trait impl with one), and the
    /// segments of the type's path (when the type is a path)
    Impl { trait_first: Option<String>, self_path: Option<Vec<String>> },
    ExternCrate(String),
    Other,
}

/// A module definition: its name, whether it is `pub`, its items, and its text as printed
/// without its attributes.
#[derive(Debug)]
pub struct ModModel {
    pub name: String,
    pub is_pub: bool,
    pub items: Vec<ModItem>,
    pub contents: String,
}

// ---------------------------------------------------------------- expressions

/// The (key, value) tuples of a constant such as `&[("KEY", &["a", "b"]), ..]`: arrays and
/// references are entered; a pair whose first element is a literal gives its text, unquoted.
pub open spec fn tuples_of(e: ExprModel) -> Seq<(Seq<char>, ExprModel)>
    decreases e, 0nat,
{
    match e {
        ExprModel::Array(elems) => tuples_of_list(elems@),
        ExprModel::Reference(inner) => tuples_of(*inner),
        ExprModel::Tuple(elems) => if elems@.len() == 2 {
            match elems@[0] {
                ExprModel::Lit(t, _) => seq![(without_surrounding_quotes(t@), elems@[1])],
                _ => Seq::empty(),
            }
        } else {
            Seq::empty()
        },
        _ => Seq::empty(),
    }
}

pub open spec fn tuples_of_list(elems: Seq<ExprModel>) -> Seq<(Seq<char>, ExprModel)>
    decreases elems, elems.len(),
{
    if elems.len() == 0 {
        Seq::empty()
    } else {
        tuples_of_list(elems.drop_last()) + tuples_of(elems.last())
    }
}

/// The string literals of an array (or a reference to one), unquoted.
pub open spec fn strings_of(e: ExprModel) -> Seq<Seq<char>> {
    match e {
        ExprModel::Array(elems) => array_strings(elems@),
        ExprModel::Reference(inner) => match *inner {
            ExprModel::Array(elems) => array_strings(elems@),
            _ => Seq::empty(),
        },
        _ => Seq::empty(),
    }
}

pub open spec fn array_strings(elems: Seq<ExprModel>) -> Seq<Seq<char>>
    decreases elems.len(),
{
    if elems.len() == 0 {
        Seq::empty()
    } else {
        array_strings(elems.drop_last()) + match elems.last() {
            ExprModel::Lit(t, true) => seq![without_surrounding_quotes(t@)],
            _ => Seq::empty(),
        }
    }
}

fn unquoted(s: &str) -> (r: String)
    ensures
        r@ == without_surrounding_quotes(s@),
{
    let mut t = to_string(s);
    remove_surrounding_quotes(&mut t);
    t
}

fn array_strings_exec(elems: &Vec<ExprModel>) -> (r: Vec<String>)
    ensures
        strings_view(r@) == array_strings(elems@),
{
    let mut out: Vec<String> = Vec::new();
    let n = elems.len();
    let mut i: usize = 0;
    assert(strings_view(out@) =~= array_strings(elems@.subrange(0, 0)));
    while i < n
        invariant
            n == elems@.len(),
            i <= n,
            strings_view(out@) == array_strings(elems@.subrange(0, i as int)),
        decreases n - i,
    {
        let ghost sub = elems@.subrange(0, i + 1);
        assert(sub.drop_last() =~= elems@.subrange(0, i as int));
        assert(sub.last() == elems@[i as int]);
        let ghost b = strings_view(out@);
        match &elems[i] {
            ExprModel::Lit(t, true) => {
                let s = unquoted(t.as_str());
                let ghost sv = s@;
                out.push(s);
                assert(strings_view(out@) =~= b.push(sv));
            },
            _ => {
                assert(b + Seq::<Seq<char>>::empty() =~= b);
            },
        }
        i = i + 1;
    }
    assert(elems@.subrange(0, n as int) =~= elems@);
    out
}

/// The string literals of an array, unquoted (see `strings_of`).
pub fn iterate_expr_for_strings(expr: &ExprModel) -> (r: Vec<String>)
    ensures
        strings_view(r@) == strings_of(*expr),
{
    match expr {
        ExprModel::Array(elems) => array_strings_exec(elems),
        ExprModel::Reference(inner) => match &**inner {
            ExprModel::Array(elems) => array_strings_exec(elems),
            _ => {
                let out: Vec<String> = Vec::new();
                assert(strings_view(out@) =~= Seq::<Seq<char>>::empty());
                out
            },
        },
        _ => {
            let out: Vec<String> = Vec::new();
            assert(strings_view(out@) =~= Seq::<Seq<char>>::empty());
            out
        },
    }
}

pub open spec fn key_strings_view(v: Seq<(String, Vec<String>)>) -> Seq<(Seq<char>, Seq<Seq<char>>)> {
    Seq::new(v.len(), |i: int| (v[i].0@, strings_view(v[i].1@)))
}

/// The (key, strings) pairs of a tuple constant: each tuple's key with the strings of its
/// value (see `tuples_of` and `strings_of`).
pub open spec fn tuple_strings(t: Seq<(Seq<char>, ExprModel)>) -> Seq<(Seq<char>, Seq<Seq<char>>)> {
    Seq::new(t.len(), |i: int| (t[i].0, strings_of(t[i].1)))
}

#[verifier::loop_isolation(false)]
fn tuples_into(e: &ExprModel, out: &mut Vec<(String, Vec<String>)>)
    ensures
        key_strings_view(final(out)@) == key_strings_view(old(out)@) + tuple_strings(tuples_of(*e)),
    decreases *e,
{
    let ghost b = key_strings_view(out@);
    match e {
        ExprModel::Array(elems) => {
            let n = elems.len();
            let mut i: usize = 0;
            assert(b + tuple_strings(tuples_of_list(elems@.subrange(0, 0))) =~= b);
            while i < n
                invariant
                    n == elems@.len(),
                    i <= n,
                    key_strings_view(out@) == b + tuple_strings(tuples_of_list(elems@.subrange(0, i as int))),
                decreases n - i,
            {
                proof {
                    assert(decreases_to!(*e => *elems));
                    assert(decreases_to!(*elems => elems@));
                    assert(decreases_to!(elems@ => elems@[i as int]));
                }
                let ghost sub = elems@.subrange(0, i + 1);
                assert(sub.drop_last() =~= elems@.subrange(0, i as int));
                assert(sub.last() == elems@[i as int]);
                let ghost mid = key_strings_view(out@);
                tuples_into(&elems[i], out);
                assert(tuple_strings(tuples_of_list(sub)) =~= tuple_strings(tuples_of_list(elems@.subrange(0, i as int))) + tuple_strings(tuples_of(elems@[i as int])));
                i = i + 1;
            }
            assert(elems@.subrange(0, n as int) =~= elems@);
        },
        ExprModel::Reference(inner) => {
            tuples_into(inner, out);
        },
        ExprModel::Tuple(elems) => {
            if elems.len() == 2 {
                match &elems[0] {
                    ExprModel::Lit(t, _) => {
                        let key = unquoted(t.as_str());
                        let vals = iterate_expr_for_strings(&elems[1]);
                        let ghost kv = (key@, strings_view(vals@));
                        out.push((key, vals));
                        assert(key_strings_view(out@) =~= b.push(kv));
                        assert(tuple_strings(seq![(without_surrounding_quotes(t@), elems@[1])]) =~= seq![kv]);
                    },
                    _ => {
                        assert(b + tuple_strings(Seq::empty()) =~= b);
                    },
                }
            } else {
                assert(b + tuple_strings(Seq::empty()) =~= b);
            }
        },
        _ => {
            assert(b + tuple_strings(Seq::empty()) =~= b);
        },
    }
}

/// The (key, strings) pairs of a constant (see `tuple_strings`).
pub fn iterate_tuples(expr: &ExprModel) -> (r: Vec<(String, Vec<String>)>)
    ensures
        key_strings_view(r@) == tuple_strings(tuples_of(*expr)),
{
    let mut out: Vec<(String, Vec<String>)> = Vec::new();
    assert(key_strings_view(out@) =~= Seq::<(Seq<char>, Seq<Seq<char>>)>::empty());
    tuples_into(expr, &mut out);
    assert(Seq::<(Seq<char>, Seq<Seq<char>>)>::empty() + tuple_strings(tuples_of(*expr)) =~= tuple_strings(tuples_of(*expr)));
    out
}

// ---------------------------------------------------------------- modules

/// What the parser gathers from a module's items.
pub struct ParsedV {
    pub config_fn_is_pub: bool,
    pub inputs: Seq<Seq<char>>,
    pub has_default: bool,
    pub input_struct: Seq<char>,
    pub use_deps: Seq<Seq<char>>,
    pub outputs: Seq<OutputV>,
    pub caps: Seq<(Seq<char>, Seq<Seq<char>>)>,
    pub extern_crates: Seq<Seq<char>>,
}

pub open spec fn parsed_view(h: HiraModule2) -> ParsedV {
    ParsedV {
        config_fn_is_pub: h.config_fn_is_pub,
        inputs: strings_view(h.config_fn_signature_inputs@),
        has_default: h.input_struct_has_default,
        input_struct: h.input_struct@,
        use_deps: strings_view(h.use_dependencies@),
        outputs: outputs_view(h.outputs@),
        caps: key_strings_view(h.capability_params@),
        extern_crates: strings_view(h.extern_crates@),
    }
}

/// Everything but what the parser gathers is as in `b`.
pub open spec fn same_identity(a: HiraModule2, b: HiraModule2) -> bool {
    &&& a.name == b.name
    &&& a.contents == b.contents
    &&& a.is_pub == b.is_pub
    &&& a.level == b.level
    &&& a.compile_dependencies == b.compile_dependencies
    &&& a.lvl3_module_depends_on == b.lvl3_module_depends_on
    &&& a.resolved_outputs == b.resolved_outputs
}

/// The first name of a path that is not `self`, `crate` or `super`.
pub open spec fn first_real_name(names: Seq<Seq<char>>) -> Option<Seq<char>>
    decreases names.len(),
{
    if names.len() == 0 {
        None
    } else if !is_path_keyword(names[0]) {
        Some(names[0])
    } else {
        first_real_name(names.subrange(1, names.len() as int))
    }
}

/// The names added to a list of distinct names, each once.
pub open spec fn add_distinct(v: Seq<Seq<char>>, x: Seq<char>) -> Seq<Seq<char>> {
    if v.contains(x) {
        v
    } else {
        v.push(x)
    }
}

/// The modules that the entries of a `use` item bring in, added to the list.
pub open spec fn use_deps_after(
    deps: Seq<Seq<char>>,
    entries: Seq<(Seq<Seq<char>>, Option<Seq<char>>, bool)>,
) -> Seq<Seq<char>>
    decreases entries.len(),
{
    if entries.len() == 0 {
        deps
    } else {
        let d = use_deps_after(deps, entries.drop_last());
        match first_real_name(entries.last().0) {
            Some(n) => add_distinct(d, n),
            None => d,
        }
    }
}

/// The index of the first `outputs` in a path.
pub open spec fn index_of_outputs(names: Seq<Seq<char>>) -> Option<int>
    decreases names.len(),
{
    if names.len() == 0 {
        None
    } else {
        match index_of_outputs(names.drop_last()) {
            Some(k) => Some(k),
            None => if names.last() == "outputs"@ {
                Some(names.len() - 1)
            } else {
                None
            },
        }
    }
}

/// The module whose outputs a path imports (the name before the first `outputs`), and the
/// last name when something follows `outputs`.
pub open spec fn use_target(names: Seq<Seq<char>>) -> Option<(Seq<char>, Option<Seq<char>>)> {
    match index_of_outputs(names) {
        None => None,
        Some(k) => if k == 0 {
            None
        } else {
            Some(
                (
                    names[k - 1],
                    if k == names.len() - 1 {
                        None
                    } else {
                        Some(names.last())
                    },
                ),
            )
        },
    }
}

/// The outputs that the entries of a `use` inside `mod outputs` declare.
pub open spec fn use_outputs(entries: Seq<(Seq<Seq<char>>, Option<Seq<char>>, bool)>) -> Seq<OutputV>
    decreases entries.len(),
{
    if entries.len() == 0 {
        Seq::empty()
    } else {
        let e = entries.last();
        use_outputs(entries.drop_last()) + match use_target(e.0) {
            None => Seq::empty(),
            Some((m, spec)) => if e.2 {
                seq![OutputV::All(m)]
            } else {
                match spec {
                    None => Seq::empty(),
                    Some(x) => seq![OutputV::Specific(m, x)],
                }
            },
        }
    }
}

/// The outputs that the items of `mod outputs` declare: constants and `use` items.
pub open spec fn output_decls(items: Seq<ModItem>) -> Seq<OutputV>
    decreases items.len(),
{
    if items.len() == 0 {
        Seq::empty()
    } else {
        output_decls(items.drop_last()) + match items.last() {
            ModItem::Const { name, value_text, .. } => seq![
                OutputV::Const(
                    without_surrounding_quotes(name@),
                    without_surrounding_quotes(value_text@),
                ),
            ],
            ModItem::Use(tree) => use_outputs(use_entries(Seq::empty(), tree)),
            _ => Seq::empty(),
        }
    }
}

/// The capability parameters after a `CAPABILITY_PARAMS` constant's pairs: a key's strings
/// are added after those it has, or the key is added with them.
pub open spec fn caps_after(
    caps: Seq<(Seq<char>, Seq<Seq<char>>)>,
    pairs: Seq<(Seq<char>, Seq<Seq<char>>)>,
) -> Seq<(Seq<char>, Seq<Seq<char>>)>
    decreases pairs.len(),
{
    if pairs.len() == 0 {
        caps
    } else {
        let c = caps_after(caps, pairs.drop_last());
        let (k, v) = pairs.last();
        if exists|i: int| 0 <= i < c.len() && c[i].0 == k {
            let i = choose|i: int| 0 <= i < c.len() && c[i].0 == k;
            c.update(i, (k, c[i].1 + v))
        } else {
            c.push((k, v))
        }
    }
}

/// Whether an `impl` is `impl Default for Input`.
pub open spec fn is_default_impl(trait_first: Option<String>, self_path: Option<Vec<String>>) -> bool {
    &&& trait_first matches Some(t) && without_surrounding_quotes(t@) == "Default"@
    &&& self_path matches Some(segs) && exists|i: int|
        0 <= i < segs@.len() && without_surrounding_quotes(#[trigger] segs@[i]@) == "Input"@
}

/// How the config reader writes a parameter: `self` for a receiver, else its type.
pub open spec fn input_text(u: UserInput) -> Seq<char> {
    if u.is_self {
        "self"@
    } else {
        u.ty@
    }
}

pub open spec fn input_texts(v: Seq<UserInput>) -> Seq<Seq<char>> {
    Seq::new(v.len(), |i: int| input_text(v[i]))
}

/// What the parser gathers after one more item.
pub open spec fn apply_item(p: ParsedV, item: ModItem) -> ParsedV {
    match item {
        ModItem::Fn(sig) => if without_surrounding_quotes(sig.name@) == "config"@ {
            ParsedV {
                config_fn_is_pub: sig.is_pub,
                inputs: p.inputs + input_texts(sig.inputs@),
                ..p
            }
        } else {
            p
        },
        ModItem::Struct { name, attrs, text } => if without_surrounding_quotes(name@)
            == "Input"@ {
            ParsedV {
                has_default: p.has_default || exists|i: int|
                    0 <= i < attrs@.len() && has_derive_spec(#[trigger] attrs@[i], "Default"@),
                input_struct: text@,
                ..p
            }
        } else {
            p
        },
        ModItem::Use(tree) => ParsedV {
            use_deps: use_deps_after(p.use_deps, use_entries(Seq::empty(), tree)),
            ..p
        },
        ModItem::Mod { name, vis, items } => if without_surrounding_quotes(name@) == "outputs"@
            && vis == ItemVisibility::Public {
            ParsedV { outputs: p.outputs + output_decls(items@), ..p }
        } else {
            p
        },
        ModItem::Const { name, expr, .. } => if name@ == "CAPABILITY_PARAMS"@ {
            ParsedV { caps: caps_after(p.caps, tuple_strings(tuples_of(expr))), ..p }
        } else {
            p
        },
        ModItem::Impl { trait_first, self_path } => if is_default_impl(trait_first, self_path) {
            ParsedV { has_default: true, ..p }
        } else {
            p
        },
        ModItem::ExternCrate(n) => ParsedV {
            extern_crates: p.extern_crates.push(without_surrounding_quotes(n@)),
            ..p
        },
        ModItem::Other => p,
    }
}

/// What the parser gathers from the items, in order.
pub open spec fn parse_items(p: ParsedV, items: Seq<ModItem>) -> ParsedV
    decreases items.len(),
{
    if items.len() == 0 {
        p
    } else {
        apply_item(parse_items(p, items.drop_last()), items.last())
    }
}

fn first_real_name_exec(names: &Vec<String>) -> (r: Option<String>)
    ensures
        match first_real_name(strings_view(names@)) {
            Some(n) => r matches Some(x) && x@ == n,
            None => r is None,
        },
{
    let ghost v = strings_view(names@);
    let n = names.len();
    let mut i: usize = 0;
    assert(v.subrange(0, n as int) =~= v);
    while i < n
        invariant
            n == names@.len(),
            v == strings_view(names@),
            i <= n,
            first_real_name(v) == first_real_name(v.subrange(i as int, n as int)),
        decreases n - i,
    {
        let ghost rest = v.subrange(i as int, n as int);
        assert(rest[0] == v[i as int]);
        assert(rest.subrange(1, rest.len() as int) =~= v.subrange(i + 1, n as int));
        let name = names[i].as_str();
        if !str_eq(name, "self") && !str_eq(name, "crate") && !str_eq(name, "super") {
            return Some(names[i].clone());
        }
        i = i + 1;
    }
    None
}

fn contains_name(v: &Vec<String>, x: &str) -> (r: bool)
    ensures
        r == strings_view(v@).contains(x@),
{
    let n = v.len();
    let mut i: usize = 0;
    while i < n
        invariant
            n == v@.len(),
            i <= n,
            forall|j: int| 0 <= j < i ==> strings_view(v@)[j] != x@,
        decreases n - i,
    {
        if str_eq(v[i].as_str(), x) {
            assert(strings_view(v@)[i as int] == x@);
            return true;
        }
        i = i + 1;
    }
    false
}

proof fn lemma_index_of_outputs(names: Seq<Seq<char>>, k: int)
    requires
        0 <= k <= names.len(),
        k < names.len() ==> names[k] == "outputs"@,
        forall|j: int| 0 <= j < k ==> names[j] != "outputs"@,
    ensures
        index_of_outputs(names) == (if k < names.len() {
            Some(k)
        } else {
            None::<int>
        }),
    decreases names.len(),
{
    if names.len() > 0 {
        let d = names.drop_last();
        if k < names.len() - 1 {
            lemma_index_of_outputs(d, k);
        } else {
            lemma_index_of_outputs(d, d.len() as int);
        }
    }
}

fn use_target_exec(names: &Vec<String>) -> (r: Option<(String, Option<String>)>)
    ensures
        match use_target(strings_view(names@)) {
            Some((m, x)) => r matches Some(p) && p.0@ == m && match x {
                Some(y) => p.1 matches Some(z) && z@ == y,
                None => p.1 is None,
            },
            None => r is None,
        },
{
    let ghost v = strings_view(names@);
    let n = names.len();
    let mut i: usize = 0;
    while i < n && !str_eq(names[i].as_str(), "outputs")
        invariant
            n == names@.len(),
            v == strings_view(names@),
            i <= n,
            forall|j: int| 0 <= j < i ==> v[j] != "outputs"@,
        decreases n - i,
    {
        i = i + 1;
    }
    proof {
        lemma_index_of_outputs(v, i as int);
    }
    if i == n || i == 0 {
        return None;
    }
    let m = names[i - 1].clone();
    if i == n - 1 {
        Some((m, None))
    } else {
        Some((m, Some(names[n - 1].clone())))
    }
}

impl HiraModule2 {
    /// Reads a function item: `config` gives whether the config function is `pub`, and its
    /// parameter types are added.
    pub fn set_config_fn_sig(&mut self, item: &ModItem)
        requires
            item is Fn,
        ensures
            same_identity(*final(self), *old(self)),
            parsed_view(*final(self)) == apply_item(parsed_view(*old(self)), *item),
    {
        if let ModItem::Fn(sig) = item {
            let n = unquoted(sig.name.as_str());
            if !str_eq(n.as_str(), "config") {
                return ;
            }
            self.config_fn_is_pub = sig.is_pub;
            let ghost b = strings_view(self.config_fn_signature_inputs@);
            let ghost texts = input_texts(sig.inputs@);
            let k = sig.inputs.len();
            let mut i: usize = 0;
            while i < k
                invariant
                    k == sig.inputs@.len(),
                    texts == input_texts(sig.inputs@),
                    i <= k,
                    strings_view(self.config_fn_signature_inputs@) == b + texts.subrange(0, i as int),
                    same_identity(*self, *old(self)),
                    self.config_fn_is_pub == sig.is_pub,
                    self.input_struct_has_default == old(self).input_struct_has_default,
                    self.input_struct == old(self).input_struct,
                    self.use_dependencies == old(self).use_dependencies,
                    self.outputs == old(self).outputs,
                    self.capability_params == old(self).capability_params,
                    self.extern_crates == old(self).extern_crates,
                decreases k - i,
            {
                let c = if sig.inputs[i].is_self {
                    to_string("self")
                } else {
                    sig.inputs[i].ty.clone()
                };
                assert(c@ == texts[i as int]);
                let ghost before = strings_view(self.config_fn_signature_inputs@);
                self.config_fn_signature_inputs.push(c);
                assert(strings_view(self.config_fn_signature_inputs@) =~= before.push(texts[i as int]));
                assert(strings_view(self.config_fn_signature_inputs@) =~= b + texts.subrange(0, i + 1));
                i = i + 1;
            }
            assert(texts.subrange(0, k as int) =~= texts);
        }
    }

    /// Reads a struct item: `Input` gives the input struct's text, and whether it derives
    /// `Default`.
    pub fn set_input_item_struct(&mut self, item: &ModItem)
        requires
            item is Struct,
        ensures
            same_identity(*final(self), *old(self)),
            parsed_view(*final(self)) == apply_item(parsed_view(*old(self)), *item),
    {
        if let ModItem::Struct { name, attrs, text } = item {
            let n = unquoted(name.as_str());
            if !str_eq(n.as_str(), "Input") {
                return ;
            }
            let k = attrs.len();
            let mut i: usize = 0;
            let mut derives = false;
            while i < k
                invariant
                    k == attrs@.len(),
                    i <= k,
                    derives == exists|j: int| 0 <= j < i && has_derive_spec(#[trigger] attrs@[j], "Default"@),
                decreases k - i,
            {
                if has_derive(&attrs[i], "Default") {
                    derives = true;
                }
                i = i + 1;
            }
            if derives {
                self.input_struct_has_default = true;
            }
            self.input_struct = text.clone();
        }
    }

    /// Reads a `use` item: the first module name of each path it brings in is added to the
    /// use dependencies, each once.
    pub fn set_use_dependencies(&mut self, item: &ModItem)
        requires
            item is Use,
        ensures
            same_identity(*final(self), *old(self)),
            parsed_view(*final(self)) == apply_item(parsed_view(*old(self)), *item),
    {
        if let ModItem::Use(tree) = item {
            let mut past: Vec<String> = Vec::new();
            let entries = iterate_item_tree(&mut past, tree);
            assert(strings_view(Seq::<String>::empty()) =~= Seq::<Seq<char>>::empty());
            let ghost ev = entries_of(entries@);
            let ghost d0 = strings_view(self.use_dependencies@);
            let k = entries.len();
            let mut i: usize = 0;
            assert(ev.subrange(0, 0) =~= Seq::<(Seq<Seq<char>>, Option<Seq<char>>, bool)>::empty());
            while i < k
                invariant
                    k == entries@.len(),
                    ev == entries_of(entries@),
                    i <= k,
                    strings_view(self.use_dependencies@) == use_deps_after(d0, ev.subrange(0, i as int)),
                    same_identity(*self, *old(self)),
                    self.config_fn_is_pub == old(self).config_fn_is_pub,
                    self.config_fn_signature_inputs == old(self).config_fn_signature_inputs,
                    self.input_struct_has_default == old(self).input_struct_has_default,
                    self.input_struct == old(self).input_struct,
                    self.outputs == old(self).outputs,
                    self.capability_params == old(self).capability_params,
                    self.extern_crates == old(self).extern_crates,
                decreases k - i,
            {
                let ghost sub = ev.subrange(0, i + 1);
                assert(sub.drop_last() =~= ev.subrange(0, i as int));
                assert(sub.last() == ev[i as int]);
                match first_real_name_exec(&entries[i].0) {
                    Some(nm) => {
                        if !contains_name(&self.use_dependencies, nm.as_str()) {
                            let ghost b = strings_view(self.use_dependencies@);
                            let ghost nv = nm@;
                            self.use_dependencies.push(nm);
                            assert(strings_view(self.use_dependencies@) =~= b.push(nv));
                        }
                    },
                    None => {},
                }
                i = i + 1;
            }
            assert(ev.subrange(0, k as int) =~= ev);
        }
    }
}

pub open spec fn caps_keys_unique(c: Seq<(Seq<char>, Seq<Seq<char>>)>) -> bool {
    forall|i: int, j: int| 0 <= i < j < c.len() ==> c[i].0 != c[j].0
}

proof fn lemma_parse_items_caps(p: ParsedV, items: Seq<ModItem>)
    requires
        caps_keys_unique(p.caps),
    ensures
        caps_keys_unique(parse_items(p, items).caps),
    decreases items.len(),
{
    if items.len() > 0 {
        lemma_parse_items_caps(p, items.drop_last());
        let q = parse_items(p, items.drop_last());
        match items.last() {
            ModItem::Const { name, expr, .. } => {
                if name@ == "CAPABILITY_PARAMS"@ {
                    lemma_caps_after_unique(q.caps, tuple_strings(tuples_of(expr)));
                }
            },
            _ => {},
        }
    }
}

proof fn lemma_caps_after_unique(caps: Seq<(Seq<char>, Seq<Seq<char>>)>, pairs: Seq<(Seq<char>, Seq<Seq<char>>)>)
    requires
        caps_keys_unique(caps),
    ensures
        caps_keys_unique(caps_after(caps, pairs)),
    decreases pairs.len(),
{
    if pairs.len() > 0 {
        lemma_caps_after_unique(caps, pairs.drop_last());
        let c = caps_after(caps, pairs.drop_last());
        let (k, v) = pairs.last();
        if exists|i: int| 0 <= i < c.len() && c[i].0 == k {
            let i = choose|i: int| 0 <= i < c.len() && c[i].0 == k;
            let u = c.update(i, (k, c[i].1 + v));
            assert forall|a: int, b: int| 0 <= a < b < u.len() implies u[a].0 != u[b].0 by {
                assert(u[a].0 == c[a].0);
                assert(u[b].0 == c[b].0);
            }
        } else {
            let u = c.push((k, v));
            assert forall|a: int, b: int| 0 <= a < b < u.len() implies u[a].0 != u[b].0 by {
                if b == c.len() {
                    assert(u[a].0 == c[a].0);
                }
            }
        }
    }
}

impl HiraModule2 {
    /// Reads a module item: a public `mod outputs` gives the outputs its constants and
    /// `use` items declare (see `output_decls`).
    pub fn set_outputs(&mut self, item: &ModItem)
        requires
            item is Mod,
        ensures
            same_identity(*final(self), *old(self)),
            parsed_view(*final(self)) == apply_item(parsed_view(*old(self)), *item),
    {
        if let ModItem::Mod { name, vis, items } = item {
            let n = unquoted(name.as_str());
            if !str_eq(n.as_str(), "outputs") || *vis != ItemVisibility::Public {
                return ;
            }
            let ghost o0 = outputs_view(self.outputs@);
            let k = items.len();
            let mut i: usize = 0;
            assert(o0 + output_decls(items@.subrange(0, 0)) =~= o0);
            while i < k
                invariant
                    k == items@.len(),
                    i <= k,
                    outputs_view(self.outputs@) == o0 + output_decls(items@.subrange(0, i as int)),
                    same_identity(*self, *old(self)),
                    self.config_fn_is_pub == old(self).config_fn_is_pub,
                    self.config_fn_signature_inputs == old(self).config_fn_signature_inputs,
                    self.input_struct_has_default == old(self).input_struct_has_default,
                    self.input_struct == old(self).input_struct,
                    self.use_dependencies == old(self).use_dependencies,
                    self.capability_params == old(self).capability_params,
                    self.extern_crates == old(self).extern_crates,
                decreases k - i,
            {
                let ghost sub = items@.subrange(0, i + 1);
                assert(sub.drop_last() =~= items@.subrange(0, i as int));
                assert(sub.last() == items@[i as int]);
                let ghost before = outputs_view(self.outputs@);
                match &items[i] {
                    ModItem::Const { name: cname, value_text, .. } => {
                        let key = unquoted(cname.as_str());
                        let val = unquoted(value_text.as_str());
                        let ghost d = OutputV::Const(key@, val@);
                        self.outputs.push(OutputType::SpecificConst(key, val));
                        assert(outputs_view(self.outputs@) =~= before + seq![d]);
                    },
                    ModItem::Use(tree) => {
                        let mut past: Vec<String> = Vec::new();
                        let entries = iterate_item_tree(&mut past, tree);
                        assert(strings_view(Seq::<String>::empty()) =~= Seq::<Seq<char>>::empty());
                        let ghost ev = entries_of(entries@);
                        let m = entries.len();
                        let mut j: usize = 0;
                        assert(before + use_outputs(ev.subrange(0, 0)) =~= before);
                        while j < m
                            invariant
                                m == entries@.len(),
                                ev == entries_of(entries@),
                                j <= m,
                                outputs_view(self.outputs@) == before + use_outputs(ev.subrange(0, j as int)),
                                same_identity(*self, *old(self)),
                                self.config_fn_is_pub == old(self).config_fn_is_pub,
                                self.config_fn_signature_inputs == old(self).config_fn_signature_inputs,
                                self.input_struct_has_default == old(self).input_struct_has_default,
                                self.input_struct == old(self).input_struct,
                                self.use_dependencies == old(self).use_dependencies,
                                self.capability_params == old(self).capability_params,
                                self.extern_crates == old(self).extern_crates,
                            decreases m - j,
                        {
                            let ghost es = ev.subrange(0, j + 1);
                            assert(es.drop_last() =~= ev.subrange(0, j as int));
                            assert(es.last() == ev[j as int]);
                            let ghost b2 = outputs_view(self.outputs@);
                            match use_target_exec(&entries[j].0) {
                                Some((mname, spec)) => {
                                    if entries[j].2 {
                                        let ghost d = OutputV::All(mname@);
                                        self.outputs.push(OutputType::AllFromModule(mname));
                                        assert(outputs_view(self.outputs@) =~= b2 + seq![d]);
                                    } else {
                                        match spec {
                                            Some(x) => {
                                                let ghost d = OutputV::Specific(mname@, x@);
                                                self.outputs.push(OutputType::SpecificFromModule(mname, x));
                                                assert(outputs_view(self.outputs@) =~= b2 + seq![d]);
                                            },
                                            None => {
                                                assert(b2 + Seq::<OutputV>::empty() =~= b2);
                                            },
                                        }
                                    }
                                },
                                None => {
                                    assert(b2 + Seq::<OutputV>::empty() =~= b2);
                                },
                            }
                            assert(outputs_view(self.outputs@) =~= before + use_outputs(es));
                            j = j + 1;
                        }
                        assert(ev.subrange(0, m as int) =~= ev);
                    },
                    _ => {
                        assert(before + Seq::<OutputV>::empty() =~= before);
                    },
                }
                assert(outputs_view(self.outputs@) =~= o0 + output_decls(sub));
                i = i + 1;
            }
            assert(items@.subrange(0, k as int) =~= items@);
        }
    }

    /// Reads a constant: `CAPABILITY_PARAMS` gives the parameters of each capability.
    pub fn set_capability_params(&mut self, item: &ModItem)
        requires
            item is Const,
            caps_keys_unique(parsed_view(*old(self)).caps),
        ensures
            same_identity(*final(self), *old(self)),
            parsed_view(*final(self)) == apply_item(parsed_view(*old(self)), *item),
            caps_keys_unique(parsed_view(*final(self)).caps),
    {
        if let ModItem::Const { name, expr, .. } = item {
            if !str_eq(name.as_str(), "CAPABILITY_PARAMS") {
                return ;
            }
            let pairs = iterate_tuples(expr);
            let ghost pv = key_strings_view(pairs@);
            let ghost c0 = key_strings_view(self.capability_params@);
            let k = pairs.len();
            let mut i: usize = 0;
            assert(pv.subrange(0, 0) =~= Seq::<(Seq<char>, Seq<Seq<char>>)>::empty());
            while i < k
                invariant
                    k == pairs@.len(),
                    pv == key_strings_view(pairs@),
                    i <= k,
                    key_strings_view(self.capability_params@) == caps_after(c0, pv.subrange(0, i as int)),
                    caps_keys_unique(key_strings_view(self.capability_params@)),
                    same_identity(*self, *old(self)),
                    self.config_fn_is_pub == old(self).config_fn_is_pub,
                    self.config_fn_signature_inputs == old(self).config_fn_signature_inputs,
                    self.input_struct_has_default == old(self).input_struct_has_default,
                    self.input_struct == old(self).input_struct,
                    self.use_dependencies == old(self).use_dependencies,
                    self.outputs == old(self).outputs,
                    self.extern_crates == old(self).extern_crates,
                decreases k - i,
            {
                let ghost sub = pv.subrange(0, i + 1);
                assert(sub.drop_last() =~= pv.subrange(0, i as int));
                assert(sub.last() == pv[i as int]);
                let ghost c = key_strings_view(self.capability_params@);
                let key = &pairs[i].0;
                let vals = &pairs[i].1;
                let m = self.capability_params.len();
                let mut j: usize = 0;
                while j < m && !str_eq(self.capability_params[j].0.as_str(), key.as_str())
                    invariant
                        m == self.capability_params@.len(),
                        j <= m,
                        c == key_strings_view(self.capability_params@),
                        forall|q: int| 0 <= q < j ==> c[q].0 != key@,
                    decreases m - j,
                {
                    j = j + 1;
                }
                if j < m {
                    let ghost pre = self.capability_params@;
                    let (kname, mut list) = self.capability_params.remove(j);
                    let ghost l0 = strings_view(list@);
                    let n2 = vals.len();
                    let mut q: usize = 0;
                    while q < n2
                        invariant
                            n2 == vals@.len(),
                            q <= n2,
                            strings_view(list@) == l0 + strings_view(vals@).subrange(0, q as int),
                        decreases n2 - q,
                    {
                        let cv = vals[q].clone();
                        assert(cv@ == strings_view(vals@)[q as int]);
                        let ghost lb = strings_view(list@);
                        list.push(cv);
                        assert(strings_view(list@) =~= lb.push(strings_view(vals@)[q as int]));
                        assert(strings_view(vals@).subrange(0, q + 1) =~= strings_view(vals@).subrange(0, q as int).push(strings_view(vals@)[q as int]));
                        q = q + 1;
                    }
                    assert(strings_view(vals@).subrange(0, n2 as int) =~= strings_view(vals@));
                    let ghost entry = (kname@, strings_view(list@));
                    self.capability_params.insert(j, (kname, list));
                    proof {
                        assert(key_strings_view(self.capability_params@) =~= c.update(j as int, entry));
                        let w = choose|w: int| 0 <= w < c.len() && c[w].0 == key@;
                        assert(w == j) by {
                            if w != j {
                                assert(c[w].0 == c[j as int].0);
                            }
                        }
                        assert(entry == (key@, c[j as int].1 + strings_view(vals@)));
                        assert forall|a: int, b: int| 0 <= a < b < key_strings_view(self.capability_params@).len()
                            implies key_strings_view(self.capability_params@)[a].0 != key_strings_view(self.capability_params@)[b].0 by {
                            assert(key_strings_view(self.capability_params@)[a].0 == c[a].0);
                            assert(key_strings_view(self.capability_params@)[b].0 == c[b].0);
                        }
                    }
                } else {
                    let nk = key.clone();
                    let nv = vals.clone();
                    assert(strings_view(nv@) == strings_view(vals@)) by {
                        assert(nv@ =~= vals@);
                    }
                    let ghost entry = (nk@, strings_view(nv@));
                    self.capability_params.push((nk, nv));
                    proof {
                        assert(key_strings_view(self.capability_params@) =~= c.push(entry));
                        assert forall|a: int, b: int| 0 <= a < b < key_strings_view(self.capability_params@).len()
                            implies key_strings_view(self.capability_params@)[a].0 != key_strings_view(self.capability_params@)[b].0 by {
                            if b == c.len() {
                                assert(key_strings_view(self.capability_params@)[a].0 == c[a].0);
                            }
                        }
                    }
                }
                i = i + 1;
            }
            assert(pv.subrange(0, k as int) =~= pv);
        }
    }

    /// Reads an impl: `impl Default for Input` gives the input struct a default.
    pub fn check_for_default_impl(&mut self, item: &ModItem)
        requires
            item is Impl,
        ensures
            same_identity(*final(self), *old(self)),
            parsed_view(*final(self)) == apply_item(parsed_view(*old(self)), *item),
    {
        if let ModItem::Impl { trait_first, self_path } = item {
            if default_impl_of_input(trait_first, self_path) {
                self.input_struct_has_default = true;
            }
        }
    }

    /// Reads an `extern crate` item: its name is added to the extern crates.
    pub fn set_extern_crates(&mut self, item: &ModItem)
        requires
            item is ExternCrate,
        ensures
            same_identity(*final(self), *old(self)),
            parsed_view(*final(self)) == apply_item(parsed_view(*old(self)), *item),
    {
        if let ModItem::ExternCrate(n) = item {
            let name = unquoted(n.as_str());
            let ghost b = strings_view(self.extern_crates@);
            let ghost nv = name@;
            self.extern_crates.push(name);
            assert(strings_view(self.extern_crates@) =~= b.push(nv));
        }
    }

    /// Reads one item of the module (see `apply_item`).
    pub fn read_item(&mut self, item: &ModItem)
        requires
            caps_keys_unique(parsed_view(*old(self)).caps),
        ensures
            same_identity(*final(self), *old(self)),
            parsed_view(*final(self)) == apply_item(parsed_view(*old(self)), *item),
            caps_keys_unique(parsed_view(*final(self)).caps),
    {
        match item {
            ModItem::Fn(_) => self.set_config_fn_sig(item),
            ModItem::Struct { .. } => self.set_input_item_struct(item),
            ModItem::Use(_) => self.set_use_dependencies(item),
            ModItem::Mod { .. } => self.set_outputs(item),
            ModItem::Const { .. } => self.set_capability_params(item),
            ModItem::Impl { .. } => self.check_for_default_impl(item),
            ModItem::ExternCrate(_) => self.set_extern_crates(item),
            ModItem::Other => {},
        }
    }
}

/// Whether an impl is `impl Default for` a path that names `Input`.
#[verifier::loop_isolation(false)]
fn default_impl_of_input(trait_first: &Option<String>, self_path: &Option<Vec<String>>) -> (r: bool)
    ensures
        r == is_default_impl(*trait_first, *self_path),
{
    let t = match trait_first {
        Some(t) => unquoted(t.as_str()),
        None => {
            return false;
        },
    };
    if !str_eq(t.as_str(), "Default") {
        return false;
    }
    let segs = match self_path {
        Some(s) => s,
        None => {
            return false;
        },
    };
    let n = segs.len();
    let mut i: usize = 0;
    while i < n
        invariant
            n == segs@.len(),
            i <= n,
            forall|j: int| 0 <= j < i ==> without_surrounding_quotes(#[trigger] segs@[j]@) != "Input"@,
        decreases n - i,
    {
        let id = unquoted(segs[i].as_str());
        if str_eq(id.as_str(), "Input") {
            assert(without_surrounding_quotes(segs@[i as int]@) == "Input"@);
            return true;
        }
        i = i + 1;
    }
    false
}

/// What the parser gathers from a module with no items.
pub open spec fn empty_parsed() -> ParsedV {
    ParsedV {
        config_fn_is_pub: false,
        inputs: Seq::empty(),
        has_default: false,
        input_struct: Seq::empty(),
        use_deps: Seq::empty(),
        outputs: Seq::empty(),
        caps: Seq::empty(),
        extern_crates: Seq::empty(),
    }
}

/// Reads a module definition: its name (unquoted), whether it is `pub`, its text, and what
/// its items give (see `parse_items`); the level and the dependencies are decided later.
pub fn parse_module_from_model(m: &ModModel) -> (r: HiraModule2)
    ensures
        r.name@ == without_surrounding_quotes(m.name@),
        r.is_pub == m.is_pub,
        r.contents@ == m.contents@,
        r.level == ModuleLevel::Level1,
        r.compile_dependencies@.len() == 0,
        r.lvl3_module_depends_on is None,
        r.resolved_outputs.wf(),
        r.resolved_outputs@ == Map::<Seq<char>, Seq<char>>::empty(),
        parsed_view(r) == parse_items(empty_parsed(), m.items@),
{
    let mut module = HiraModule2 {
        name: unquoted(m.name.as_str()),
        contents: m.contents.clone(),
        config_fn_is_pub: false,
        config_fn_signature_inputs: Vec::new(),
        is_pub: m.is_pub,
        input_struct_has_default: false,
        input_struct: String::new(),
        level: ModuleLevel::Level1,
        use_dependencies: Vec::new(),
        compile_dependencies: Vec::new(),
        lvl3_module_depends_on: None,
        extern_crates: Vec::new(),
        outputs: Vec::new(),
        resolved_outputs: StrMap::new(),
        capability_params: Vec::new(),
    };
    proof {
        let pv = parsed_view(module);
        let e = empty_parsed();
        assert(pv.inputs =~= e.inputs);
        assert(pv.input_struct =~= e.input_struct);
        assert(pv.use_deps =~= e.use_deps);
        assert(pv.outputs =~= e.outputs);
        assert(pv.caps =~= e.caps);
        assert(pv.extern_crates =~= e.extern_crates);
        assert(pv == e);
    }
    let ghost start = module;
    let n = m.items.len();
    let mut i: usize = 0;
    assert(m.items@.subrange(0, 0) =~= Seq::<ModItem>::empty());
    while i < n
        invariant
            n == m.items@.len(),
            i <= n,
            same_identity(module, start),
            parsed_view(module) == parse_items(empty_parsed(), m.items@.subrange(0, i as int)),
            caps_keys_unique(parsed_view(module).caps),
        decreases n - i,
    {
        let ghost sub = m.items@.subrange(0, i + 1);
        assert(sub.drop_last() =~= m.items@.subrange(0, i as int));
        assert(sub.last() == m.items@[i as int]);
        module.read_item(&m.items[i]);
        i = i + 1;
    }
    assert(m.items@.subrange(0, n as int) =~= m.items@);
    module
}

} // verus!
