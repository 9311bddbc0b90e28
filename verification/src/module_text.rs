use vstd::prelude::*;
use vstd::string::*;

use quote::ToTokens;

use crate::level0::{FunctionSignature, UserInput};
use crate::module_loading::{HiraModule2, ModuleLevel};
use crate::module_parse::{empty_parsed, parse_items, parse_module_from_model, parsed_view, ExprModel, ModItem, ModModel};
use crate::syn_model::{AttrItem, MetaKind};
use crate::text::{concat3, to_string};
use crate::tokens::{Delim, Tok};
use crate::use_paths::without_surrounding_quotes;

verus! {

// The `syn` and `proc_macro2` values that the module reader converts. The lexer that
// `proc_macro2` runs (the compiler's or its own) depends on the process, so nothing is said
// of what the conversions give; `parse_module_from_string` is verified for every outcome.

#[verifier::external_type_specification]
#[verifier::external_body]
pub struct ExItemMod(syn::ItemMod);

#[verifier::external_type_specification]
#[verifier::external_body]
pub struct ExItem(syn::Item);

#[verifier::external_type_specification]
#[verifier::external_body]
pub struct ExItemFn(syn::ItemFn);

#[verifier::external_type_specification]
#[verifier::external_body]
pub struct ExItemImpl(syn::ItemImpl);

#[verifier::external_type_specification]
#[verifier::external_body]
pub struct ExFnArg(syn::FnArg);

#[verifier::external_type_specification]
#[verifier::external_body]
pub struct ExItemStruct(syn::ItemStruct);

#[verifier::external_type_specification]
#[verifier::external_body]
pub struct ExItemConst(syn::ItemConst);

#[verifier::external_type_specification]
#[verifier::external_body]
pub struct ExAttribute(syn::Attribute);

#[verifier::external_type_specification]
#[verifier::external_body]
pub struct ExUseTree(syn::UseTree);

#[verifier::external_type_specification]
#[verifier::external_body]
pub struct ExExpr(syn::Expr);

#[verifier::external_type_specification]
#[verifier::external_body]
pub struct ExMeta(syn::Meta);

#[verifier::external_type_specification]
#[verifier::external_body]
pub struct ExMacroDelimiter(syn::MacroDelimiter);

#[verifier::external_type_specification]
#[verifier::external_body]
pub struct ExDelimiter(proc_macro2::Delimiter);

#[verifier::external_type_specification]
#[verifier::external_body]
pub struct ExVisibility(syn::Visibility);

#[verifier::external_type_specification]
#[verifier::external_body]
pub struct ExTokenTree(proc_macro2::TokenTree);

/// `proc_macro2`'s delimiter as a `Delim`.
#[verifier::external_body]
fn delim_of(d: proc_macro2::Delimiter) -> (r: Delim) {
    match d {
        proc_macro2::Delimiter::Parenthesis => Delim::Parenthesis,
        proc_macro2::Delimiter::Brace => Delim::Brace,
        proc_macro2::Delimiter::Bracket => Delim::Bracket,
        proc_macro2::Delimiter::None => Delim::NoDelim,
    }
}

/// `proc_macro2`'s token tree as a `Tok`, by its kind, with its printed text.
#[verifier::external_body]
fn token_of(t: proc_macro2::TokenTree) -> (r: Tok) {
    match t {
        proc_macro2::TokenTree::Ident(i) => Tok::Ident(i.to_string()),
        proc_macro2::TokenTree::Punct(p) => Tok::Punct(p.as_char(), p.spacing() == proc_macro2::Spacing::Joint),
        proc_macro2::TokenTree::Literal(l) => Tok::Literal(l.to_string()),
        proc_macro2::TokenTree::Group(g) => Tok::Group(delim_of(g.delimiter()), g.stream().into_iter().map(token_of).collect(), g.to_string()),
    }
}

/// `syn`'s delimiter of an attribute's list as a `Delim`.
#[verifier::external_body]
fn macro_delim_of(d: &syn::MacroDelimiter) -> (r: Delim) {
    match d {
        syn::MacroDelimiter::Paren(_) => Delim::Parenthesis,
        syn::MacroDelimiter::Brace(_) => Delim::Brace,
        syn::MacroDelimiter::Bracket(_) => Delim::Bracket,
    }
}

/// `syn`'s attribute form as a `MetaKind`: a path, a list (its delimiter and tokens), or
/// `name = value` (the value printed, and the literal's token when it is a string).
#[verifier::external_body]
fn meta_of(m: &syn::Meta) -> (r: MetaKind) {
    match m {
        syn::Meta::Path(_) => MetaKind::Path,
        syn::Meta::List(l) => MetaKind::List(macro_delim_of(&l.delimiter), l.tokens.clone().into_iter().map(token_of).collect()),
        syn::Meta::NameValue(nv) => MetaKind::NameValue(nv.value.to_token_stream().to_string(), match &nv.value {
            syn::Expr::Lit(syn::ExprLit { lit: syn::Lit::Str(s), .. }) => Some(s.token().to_string()),
            _ => None,
        }),
    }
}

/// `syn`'s attribute as an `AttrItem`: its path printed, the path's names, and its form.
#[verifier::external_body]
fn attr_of(a: &syn::Attribute) -> (r: AttrItem) {
    AttrItem {
        path: a.path().to_token_stream().to_string(),
        path_segments: a.path().segments.iter().map(|s| s.ident.to_string()).collect(),
        meta: meta_of(&a.meta),
    }
}

/// `syn`'s `use` tree as a `UseSpec`, node for node.
#[verifier::external_body]
fn use_tree_of(t: &syn::UseTree) -> (r: crate::use_paths::UseSpec) {
    match t {
        syn::UseTree::Path(p) => crate::use_paths::UseSpec::Path(p.ident.to_string(), Box::new(use_tree_of(&p.tree))),
        syn::UseTree::Name(n) => crate::use_paths::UseSpec::Name(n.ident.to_string()),
        syn::UseTree::Rename(r) => crate::use_paths::UseSpec::Rename(r.ident.to_string(), r.rename.to_string()),
        syn::UseTree::Glob(_) => crate::use_paths::UseSpec::Glob,
        syn::UseTree::Group(g) => crate::use_paths::UseSpec::Group(g.items.iter().map(use_tree_of).collect()),
    }
}

/// `syn`'s expression as an `ExprModel`: arrays, references, tuples and literals (printed,
/// and whether a string), anything else as `Other`.
#[verifier::external_body]
fn expr_of(e: &syn::Expr) -> (r: ExprModel) {
    match e {
        syn::Expr::Array(a) => ExprModel::Array(a.elems.iter().map(expr_of).collect()),
        syn::Expr::Reference(r) => ExprModel::Reference(Box::new(expr_of(&r.expr))),
        syn::Expr::Tuple(t) => ExprModel::Tuple(t.elems.iter().map(expr_of).collect()),
        syn::Expr::Lit(l) => ExprModel::Lit(l.lit.to_token_stream().to_string(), matches!(l.lit, syn::Lit::Str(_))),
        _ => ExprModel::Other,
    }
}

/// `syn`'s function parameter as a `UserInput`: a receiver is `&self` with no type; another
/// parameter gives its pattern and its type, printed.
#[verifier::external_body]
fn input_of(a: &syn::FnArg) -> (r: UserInput) {
    match a {
        syn::FnArg::Receiver(_) => UserInput { is_self: true, name: "&self".to_string(), ty: String::new() },
        syn::FnArg::Typed(x) => UserInput { is_self: false, name: x.pat.to_token_stream().to_string(), ty: x.ty.to_token_stream().to_string() },
    }
}

/// `syn`'s function as a `ModItem`: its name, whether it is `pub`, `async`, `unsafe` and
/// `const`, its parameters, and its return type printed (empty when it has none).
#[verifier::external_body]
fn fn_item_of(f: &syn::ItemFn) -> (r: ModItem) {
    ModItem::Fn(FunctionSignature {
        name: f.sig.ident.to_string(),
        is_pub: matches!(f.vis, syn::Visibility::Public(_)),
        is_async: f.sig.asyncness.is_some(),
        is_unsafe: f.sig.unsafety.is_some(),
        is_const: f.sig.constness.is_some(),
        inputs: f.sig.inputs.iter().map(input_of).collect(),
        return_ty: match &f.sig.output {
            syn::ReturnType::Default => String::new(),
            syn::ReturnType::Type(_, b) => b.to_token_stream().to_string(),
        },
    })
}

/// `syn`'s impl as a `ModItem`: the first name of the trait's path, and the names of the
/// type's path when the type is a path.
#[verifier::external_body]
fn impl_item_of(im: &syn::ItemImpl) -> (r: ModItem) {
    ModItem::Impl {
        trait_first: im.trait_.as_ref().and_then(|(_, p, _)| p.segments.first().map(|s| s.ident.to_string())),
        self_path: match &*im.self_ty {
            syn::Type::Path(p) => Some(p.path.segments.iter().map(|s| s.ident.to_string()).collect()),
            _ => None,
        },
    }
}

/// `syn`'s struct as a `ModItem`: its name, its attributes and its text printed.
#[verifier::external_body]
fn struct_item_of(s: &syn::ItemStruct) -> (r: ModItem) {
    ModItem::Struct { name: s.ident.to_string(), attrs: s.attrs.iter().map(attr_of).collect(), text: s.to_token_stream().to_string() }
}

/// `syn`'s constant as a `ModItem`: its name, its value printed and its value read.
#[verifier::external_body]
fn const_item_of(c: &syn::ItemConst) -> (r: ModItem) {
    ModItem::Const { name: c.ident.to_string(), value_text: c.expr.to_token_stream().to_string(), expr: expr_of(&c.expr) }
}

/// `syn`'s inner module as a `ModItem`: its name, its visibility and its items.
#[verifier::external_body]
fn mod_item_of(m: &syn::ItemMod) -> (r: ModItem) {
    ModItem::Mod { name: m.ident.to_string(), vis: visibility_of(&m.vis), items: items_of(m) }
}

/// `syn`'s item as a `ModItem`, variant for variant.
#[verifier::external_body]
fn item_of(i: &syn::Item) -> (r: ModItem) {
    match i {
        syn::Item::Fn(f) => fn_item_of(f),
        syn::Item::Struct(s) => struct_item_of(s),
        syn::Item::Use(u) => ModItem::Use(use_tree_of(&u.tree)),
        syn::Item::Mod(m) => mod_item_of(m),
        syn::Item::Const(c) => const_item_of(c),
        syn::Item::Impl(im) => impl_item_of(im),
        syn::Item::ExternCrate(e) => ModItem::ExternCrate(e.ident.to_string()),
        _ => ModItem::Other,
    }
}

/// `syn`'s visibility as a `ItemVisibility`.
#[verifier::external_body]
fn visibility_of(v: &syn::Visibility) -> (r: crate::syn_model::ItemVisibility) {
    match v {
        syn::Visibility::Public(_) => crate::syn_model::ItemVisibility::Public,
        syn::Visibility::Restricted(_) => crate::syn_model::ItemVisibility::Restricted,
        syn::Visibility::Inherited => crate::syn_model::ItemVisibility::Inherited,
    }
}

/// The items of a module definition, each as a `ModItem`.
#[verifier::external_body]
fn items_of(m: &syn::ItemMod) -> (r: Vec<ModItem>) {
    m.content.as_ref().map(|c| c.1.iter().map(item_of).collect()).unwrap_or_default()
}

/// `syn` reads the text as a module definition: its name, whether it is `pub`, its items,
/// and its text printed without its attributes; or the parser's error printed.
#[verifier::external_body]
pub(crate) fn module_model(src: &str) -> (r: Result<ModModel, String>) {
    match syn::parse_str::<syn::ItemMod>(src) {
        Ok(mut m) => {
            let items = items_of(&m);
            m.attrs.clear();
            Ok(ModModel { name: m.ident.to_string(), is_pub: matches!(m.vis, syn::Visibility::Public(_)), items, contents: m.to_token_stream().to_string() })
        },
        Err(e) => Err(format!("{:?}", e)),
    }
}

/// What reading the module definition `m` gives (see `parse_module_from_model`).
pub open spec fn module_read_from(r: HiraModule2, m: ModModel) -> bool {
    &&& r.name@ == without_surrounding_quotes(m.name@)
    &&& r.is_pub == m.is_pub
    &&& r.contents@ == m.contents@
    &&& r.level == ModuleLevel::Level1
    &&& r.compile_dependencies@.len() == 0
    &&& r.lvl3_module_depends_on is None
    &&& r.resolved_outputs.wf()
    &&& r.resolved_outputs@ == Map::<Seq<char>, Seq<char>>::empty()
    &&& parsed_view(r) == parse_items(empty_parsed(), m.items@)
}

pub open spec fn not_a_module_text(e: Seq<char>) -> Seq<char> {
    "Failed to parse as ItemMod. Hira expects modules to be only applied to rust modules\n"@ + e
}

/// Reads a module from its source text: the text is parsed as a module definition, which is
/// then read (see `parse_module_from_model`); text that is none is refused with the parser's
/// message.
pub fn parse_module_from_string(src: &str) -> (r: Result<HiraModule2, String>)
    ensures
        r matches Ok(h) ==> exists|m: ModModel| #[trigger] module_read_from(h, m),
        r matches Err(msg) ==> exists|e: Seq<char>| msg@ == #[trigger] not_a_module_text(e),
{
    match module_model(src) {
        Ok(m) => {
            let h = parse_module_from_model(&m);
            assert(module_read_from(h, m));
            Ok(h)
        },
        Err(e) => {
            let msg = concat3(
                "Failed to parse as ItemMod. Hira expects modules to be only applied to rust modules\n",
                e.as_str(),
                "",
            );
            proof {
                reveal_strlit("");
                assert(msg@ =~= not_a_module_text(e@));
            }
            Err(msg)
        },
    }
}

/// `proc_macro2` lexes the text: its tokens, each as a `Tok`, or the lexer's error printed.
/// Which lexer runs (the compiler's or the fallback) depends on the process, so nothing is
/// said of the result; the functions that take it are verified for each one.
#[verifier::external_body]
pub(crate) fn lex_tokens(src: &str) -> (r: Result<Vec<Tok>, String>) {
    match <proc_macro2::TokenStream as std::str::FromStr>::from_str(src) {
        Ok(ts) => Ok(ts.into_iter().map(token_of).collect()),
        Err(e) => Err(format!("{:?}", e)),
    }
}

/// `syn` reads the text as a module definition: whether it has a body in braces, or the
/// parser's error printed. Nothing is said of the verdict (see `lex_tokens`).
#[verifier::external_body]
pub(crate) fn module_has_body(src: &str) -> (r: Result<bool, String>) {
    match syn::parse_str::<syn::ItemMod>(src) {
        Ok(m) => Ok(m.content.is_some()),
        Err(e) => Err(format!("{:?}", e)),
    }
}

/// `syn` reads the text as a module definition and each of `inside` as a function
/// definition, adds the functions at the end of the module's body, and prints the module;
/// `None` where one of them does not parse or the module has no body. Nothing is said of
/// the result (see `lex_tokens`).
#[verifier::external_body]
pub(crate) fn module_with_functions(src: &str, inside: &Vec<String>) -> (r: Option<String>) {
    let mut m = syn::parse_str::<syn::ItemMod>(src).ok()?;
    let fns = inside.iter().map(|f| syn::parse_str::<syn::ItemFn>(f).map(syn::Item::Fn));
    let fns = fns.collect::<Result<Vec<syn::Item>, syn::Error>>().ok()?;
    m.content.as_mut()?.1.extend(fns);
    Some(m.to_token_stream().to_string())
}

} // verus!
