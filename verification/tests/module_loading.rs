use std::str::FromStr;

use quote::ToTokens;

use hira::level0::{FunctionSignature, UserInput};
use hira::module_loading::{DependencyTypeName, HiraModule2, ModuleLevel, OutputType};
use hira::module_parse::{ExprModel, ModItem};
use hira::syn_model::{extract_hiracfgs, AttrItem, MetaKind, ItemVisibility};
use hira::tokens::{Delim, Tok};
use hira::use_paths::{iterate_item_tree, UseSpec};

fn to_tok(t: proc_macro2::TokenTree) -> Tok {
    match t {
        proc_macro2::TokenTree::Ident(i) => Tok::Ident(i.to_string()),
        proc_macro2::TokenTree::Punct(p) => Tok::Punct(p.as_char(), p.spacing() == proc_macro2::Spacing::Joint),
        proc_macro2::TokenTree::Literal(l) => Tok::Literal(l.to_string()),
        proc_macro2::TokenTree::Group(g) => {
            let text = g.to_string();
            Tok::Group(delim(g.delimiter()), g.stream().into_iter().map(to_tok).collect(), text)
        }
    }
}

fn delim(d: proc_macro2::Delimiter) -> Delim {
    match d {
        proc_macro2::Delimiter::Parenthesis => Delim::Parenthesis,
        proc_macro2::Delimiter::Brace => Delim::Brace,
        proc_macro2::Delimiter::Bracket => Delim::Bracket,
        proc_macro2::Delimiter::None => Delim::NoDelim,
    }
}

fn attr_item(a: &syn::Attribute) -> AttrItem {
    let path = a.path();
    let meta = match &a.meta {
        syn::Meta::Path(_) => MetaKind::Path,
        syn::Meta::List(l) => {
            let d = match l.delimiter {
                syn::MacroDelimiter::Paren(_) => Delim::Parenthesis,
                syn::MacroDelimiter::Brace(_) => Delim::Brace,
                syn::MacroDelimiter::Bracket(_) => Delim::Bracket,
            };
            MetaKind::List(d, l.tokens.clone().into_iter().map(to_tok).collect())
        }
        syn::Meta::NameValue(nv) => {
            let lit = match &nv.value {
                syn::Expr::Lit(syn::ExprLit { lit: syn::Lit::Str(s), .. }) => Some(s.token().to_string()),
                _ => None,
            };
            MetaKind::NameValue(nv.value.to_token_stream().to_string(), lit)
        }
    };
    AttrItem {
        path: path.to_token_stream().to_string(),
        path_segments: path.segments.iter().map(|s| s.ident.to_string()).collect(),
        meta,
    }
}

fn use_tree(t: &syn::UseTree) -> UseSpec {
    match t {
        syn::UseTree::Path(p) => UseSpec::Path(p.ident.to_string(), Box::new(use_tree(&p.tree))),
        syn::UseTree::Name(n) => UseSpec::Name(n.ident.to_string()),
        syn::UseTree::Rename(r) => UseSpec::Rename(r.ident.to_string(), r.rename.to_string()),
        syn::UseTree::Glob(_) => UseSpec::Glob,
        syn::UseTree::Group(g) => UseSpec::Group(g.items.iter().map(use_tree).collect()),
    }
}

fn expr_model(e: &syn::Expr) -> ExprModel {
    match e {
        syn::Expr::Array(a) => ExprModel::Array(a.elems.iter().map(expr_model).collect()),
        syn::Expr::Reference(r) => ExprModel::Reference(Box::new(expr_model(&r.expr))),
        syn::Expr::Tuple(t) => ExprModel::Tuple(t.elems.iter().map(expr_model).collect()),
        syn::Expr::Lit(l) => ExprModel::Lit(
            l.lit.to_token_stream().to_string(),
            matches!(l.lit, syn::Lit::Str(_)),
        ),
        _ => ExprModel::Other,
    }
}

fn visibility(v: &syn::Visibility) -> ItemVisibility {
    match v {
        syn::Visibility::Public(_) => ItemVisibility::Public,
        syn::Visibility::Restricted(_) => ItemVisibility::Restricted,
        syn::Visibility::Inherited => ItemVisibility::Inherited,
    }
}

fn mod_item(i: &syn::Item) -> ModItem {
    match i {
        syn::Item::Fn(f) => ModItem::Fn(FunctionSignature {
            name: f.sig.ident.to_string(),
            is_pub: matches!(f.vis, syn::Visibility::Public(_)),
            is_async: f.sig.asyncness.is_some(),
            is_unsafe: f.sig.unsafety.is_some(),
            is_const: f.sig.constness.is_some(),
            inputs: f
                .sig
                .inputs
                .iter()
                .map(|a| match a {
                    syn::FnArg::Receiver(_) => UserInput { is_self: true, name: "&self".to_string(), ty: String::new() },
                    syn::FnArg::Typed(x) => UserInput {
                        is_self: false,
                        name: x.pat.to_token_stream().to_string(),
                        ty: x.ty.to_token_stream().to_string(),
                    },
                })
                .collect(),
            return_ty: match &f.sig.output {
                syn::ReturnType::Default => String::new(),
                syn::ReturnType::Type(_, b) => b.to_token_stream().to_string(),
            },
        }),
        syn::Item::Struct(s) => ModItem::Struct {
            name: s.ident.to_string(),
            attrs: s.attrs.iter().map(attr_item).collect(),
            text: s.to_token_stream().to_string(),
        },
        syn::Item::Use(u) => ModItem::Use(use_tree(&u.tree)),
        syn::Item::Mod(m) => ModItem::Mod {
            name: m.ident.to_string(),
            vis: visibility(&m.vis),
            items: m.content.as_ref().map(|c| c.1.iter().map(mod_item).collect()).unwrap_or_default(),
        },
        syn::Item::Const(c) => ModItem::Const {
            name: c.ident.to_string(),
            value_text: c.expr.to_token_stream().to_string(),
            expr: expr_model(&c.expr),
        },
        syn::Item::Impl(im) => ModItem::Impl {
            trait_first: im
                .trait_
                .as_ref()
                .and_then(|(_, p, _)| p.segments.first().map(|s| s.ident.to_string())),
            self_path: match &*im.self_ty {
                syn::Type::Path(p) => Some(p.path.segments.iter().map(|s| s.ident.to_string()).collect()),
                _ => None,
            },
        },
        syn::Item::ExternCrate(e) => ModItem::ExternCrate(e.ident.to_string()),
        _ => ModItem::Other,
    }
}

fn parse_module(code: &str) -> HiraModule2 {
    hira::module_text::parse_module_from_string(code).expect("failed to parse test case as module")
}

#[test]
fn text_that_is_no_module_is_refused() {
    let err = hira::module_text::parse_module_from_string("fn x() {}").unwrap_err();
    assert!(err.starts_with("Failed to parse as ItemMod. Hira expects modules to be only applied to rust modules\n"));
}

fn assert_contains_str(s: String, part: &str) {
    assert!(s.contains(part), "expected {:?} to contain {:?}", s, part);
}

fn use_entries_of(code: &str) -> Vec<(Vec<String>, Option<String>, bool)> {
    let item = syn::parse_str::<syn::ItemUse>(code).unwrap();
    let mut past_names = vec![];
    iterate_item_tree(&mut past_names, &use_tree(&item.tree))
}

#[test]
fn iterating_item_tree_works() {
    let outs = use_entries_of("use hello::{world, something_else as xyz, third::*};");
    assert_eq!(outs[0].0, &["hello", "world"]);
    assert_eq!(outs[0].1, None);
    assert_eq!(outs[0].2, false);

    assert_eq!(outs[1].0, &["hello", "something_else"]);
    assert_eq!(outs[1].1, Some("xyz".to_string()));
    assert_eq!(outs[1].2, false);

    assert_eq!(outs[2].0, &["hello", "third"]);
    assert_eq!(outs[2].1, None);
    assert_eq!(outs[2].2, true);
}

#[test]
fn iterating_item_tree_works_self() {
    let outs = use_entries_of("use self::some_module::some_thing;");
    assert_eq!(outs[0].0, &["self", "some_module", "some_thing"]);
}

#[test]
fn iterating_item_tree_works_crate() {
    let outs = use_entries_of("use crate::some_module::some_thing;");
    assert_eq!(outs[0].0, &["crate", "some_module", "some_thing"]);
}

#[test]
fn iterating_item_tree_works_super() {
    let outs = use_entries_of("use super::some_module::some_thing;");
    assert_eq!(outs[0].0, &["super", "some_module", "some_thing"]);
}

#[test]
fn iterating_item_tree_works_dotdotfirst() {
    let outs = use_entries_of("use ::some_module::some_thing;");
    assert_eq!(outs[0].0, &["some_module", "some_thing"]);
}

fn attrs_of_const(code: &str) -> Vec<(AttrItem, syn::Attribute)> {
    let item = syn::parse_str::<syn::ItemConst>(code).unwrap();
    item.attrs.iter().map(|a| (attr_item(a), a.clone())).collect()
}

#[test]
fn extracting_attrs_works() {
    let mut attrs = attrs_of_const("#[hiracfg(helloworld)]pub const X: u32 = 2;");
    let out = extract_hiracfgs(&mut attrs, None);
    assert!(attrs.is_empty());
    assert_eq!(out.len(), 1);
    assert_eq!(out[0].key, "helloworld");

    let mut attrs = attrs_of_const("#[hiracfg(key = \"value\")]pub const X: u32 = 2;");
    let out = extract_hiracfgs(&mut attrs, None);
    assert!(attrs.is_empty());
    assert_eq!(out.len(), 1);
    assert_eq!(out[0].key, "key");
    assert_eq!(out[0].value, Some("value".to_string()));
}

#[test]
fn other_attributes_are_kept() {
    let mut attrs = attrs_of_const("#[allow(dead_code)] #[hiracfg(a)] #[doc = \"x\"] pub const X: u32 = 2;");
    let out = extract_hiracfgs(&mut attrs, Some("X".to_string()));
    assert_eq!(attrs.len(), 2);
    assert_eq!(out.len(), 1);
    assert_eq!(out[0].key, "a");
    assert_eq!(out[0].applied_to, "X");
}

#[test]
fn basic_mod2_parsing_works() {
    let code = r#"
    mod hello_world {
        // most basic use:
        use super::other_thing::outputs::something;
        // these should be represented the same way:
        use crate::dependency_b::outputs;
        use crate::dependency_a::outputs::*;
        // groups work:
        use crate::{
            // xyz should resolve to somedep1
            somedep1::outputs as xyz,
            // somedep2 should have explicit outputs A1, and A2
            somedep2::{
                outputs::A1,
                outputs::A2,
                // should not allow renaming specific fields
                outputs::A3 as somethingelse,
            }
        };
        // ignored:
        use some_library;

        #[derive(Default)]
        pub struct Input {
            pub a: u32,
        }

        mod outputs {
            pub const HEY: &'static str = "dsa";
        }

        pub fn config(input: &mut Input) {

        }
    }
    "#;
    let module = parse_module(code);
    assert_eq!(module.name, "hello_world");
    assert_eq!(module.config_fn_signature_inputs.len(), 1);
    assert_eq!(module.config_fn_signature_inputs[0], "& mut Input");
    assert!(module.use_dependencies.contains(&"dependency_b".to_string()));
    assert!(module.use_dependencies.contains(&"dependency_a".to_string()));
    assert!(module.use_dependencies.contains(&"somedep1".to_string()));
    assert!(module.use_dependencies.contains(&"somedep2".to_string()));
    assert!(module.use_dependencies.contains(&"other_thing".to_string()));
    assert!(module.use_dependencies.contains(&"some_library".to_string()));
    assert_eq!(module.use_dependencies.len(), 6);
    assert!(module.input_struct.contains("pub a"));
    assert!(module.input_struct.contains("pub struct Input"));
}

#[test]
fn mod2_can_detect_extern_crates() {
    let code = r#"
    mod hello_world {
        extern crate some_dependency;

        mod outputs {
            pub const HEY: &'static str = "dsa";
        }
        #[derive(Default)]
        pub struct Input { pub a: u32 }
        pub fn config(input: &mut Input) {}
    }
    "#;
    let module = parse_module(code);
    assert_eq!(module.name, "hello_world");
    assert_eq!(module.extern_crates.len(), 1);
    assert_eq!(module.extern_crates[0], "some_dependency");
}

#[test]
fn mod2_file_permissions_get_set_correctly() {
    let code = r#"pub const CAPABILITY_PARAMS: &[(&str, &[&str])] = &[("FILES", &["hello.txt"])];"#;
    let item = syn::parse_str::<syn::Item>(code).unwrap();
    let mut module = parse_module("mod empty {}");
    module.set_capability_params(&mod_item(&item));
    let files = module.capability_params.iter().find(|(k, _)| k == "FILES").expect("FILES");
    assert_eq!(files.1[0], "hello.txt");
}

fn verify(module: &mut HiraModule2) -> Result<(), String> {
    module.verify_config_signature("")
}

#[test]
fn mod2_verify_works() {
    let code = r#"
    pub mod hello_world {
        #[derive(Default)]
        pub struct Input {
            pub a: u32,
        }
        mod outputs {
            pub const HEY: &'static str = "dsa";
        }
        pub fn config(input: &mut Input) {

        }
    }
    "#;
    let mut module = parse_module(code);
    let out = verify(&mut module);
    assert!(out.is_ok());
}

#[test]
fn mod2_gives_nice_error_if_use_statements_are_wrong() {
    let code = r#"
    pub mod hello_world {
        use super::thing_that_wont_be_compiled;
        #[derive(Default)]
        pub struct Input {
            pub a: u32,
        }
        mod outputs {
            pub const HEY: &'static str = "dsa";
        }
        pub fn config(input: &mut Input) {
            thing_that_wont_be_compiled::hi();
        }
    }
    "#;
    let mut module = parse_module(code);
    let out = verify(&mut module);
    let err = out.err().expect("Expected to get an error from verify");
    assert_contains_str(err, "has a use statement that's referencing 'thing_that_wont_be_compiled' but this item will not be compiled");
}

#[test]
fn level0_items_may_be_used() {
    let code = r#"
    pub mod hello_world {
        use super::L0Core;
        #[derive(Default)]
        pub struct Input {}
        pub fn config(input: &mut Input) {}
    }
    "#;
    let mut module = parse_module(code);
    assert!(module.verify_config_signature("pub struct L0Core { }").is_ok());
    let mut module = parse_module(code);
    assert!(module.verify_config_signature("").is_err());
}

#[test]
fn mod2_multiple_params_works() {
    let code = r#"
    pub mod hello_world {
        #[derive(Default)]
        pub struct Input {
            pub a: u32,
        }
        mod outputs {
            pub const HEY: &'static str = "dsa";
        }
        pub fn config(input: &mut Input, other: &mut other::Input, libobj: &mut L0Reader, somethingelse: &mut hello::Input) {

        }
    }
    "#;
    let mut module = parse_module(code);
    let out = verify(&mut module);
    assert!(out.is_ok());
    assert_eq!(module.compile_dependencies.len(), 3);
    let has = |f: &dyn Fn(&DependencyTypeName) -> bool| module.compile_dependencies.iter().any(|d| f(d));
    assert!(has(&|d| matches!(d, DependencyTypeName::Mod1Or2(s) if s == "other")));
    assert!(has(&|d| matches!(d, DependencyTypeName::Mod1Or2(s) if s == "hello")));
    assert!(has(&|d| matches!(d, DependencyTypeName::Library(s) if s == "L0Reader")));
}

#[test]
fn mod2_properly_detect_lvl2() {
    let code = r#"
    pub mod hello_world {
        // we dont have an Input struct defined, but our only input
        // is a Self Input, therefore this should be detected as a lvl2 module
        pub fn config(input: &mut Input) {}
    }
    "#;
    let mut module = parse_module(code);
    let _ = verify(&mut module);
    assert_eq!(module.level, ModuleLevel::Level2);
}

#[test]
fn mod2_lvl2_must_have_input_struct() {
    let code = r#"
    pub mod hello_world {
        // it has more than 1 input, so it must be a lvl2. but there is no Input struct
        pub fn config(input: &mut some_other::Input, core: &mut L0Core) {}
    }
    "#;
    let mut module = parse_module(code);
    let out = verify(&mut module);
    assert_eq!(module.level, ModuleLevel::Level2);
    let err = out.err().expect("Expected to get an error from verify");
    assert_contains_str(err, "missing an Input struct");
}

#[test]
fn mod2_lvl2_input_must_have_default_impl() {
    let code = r#"
    pub mod hello_world {
        pub struct Input {}
        pub fn config(input: &mut Input) {}
    }
    "#;
    let mut module = parse_module(code);
    let out = verify(&mut module);
    assert_eq!(module.level, ModuleLevel::Level2);
    let err = out.err().expect("Expected to get an error from verify");
    assert_contains_str(err, "missing a Default implementation");
}

#[test]
fn mod2_lvl2_can_detect_custom_default_impl() {
    let code = r#"
    pub mod hello_world {
        pub struct Input {}
        impl Default for Input {
            fn default() -> Self { Input {} }
        }
        pub fn config(input: &mut Input) {}
    }
    "#;
    let mut module = parse_module(code);
    let out = verify(&mut module);
    assert!(out.is_ok());
    assert_eq!(module.level, ModuleLevel::Level2);
    assert_eq!(module.input_struct_has_default, true);
}

#[test]
fn mod2_lvl2_input_struct_must_be_referenced() {
    let code = r#"
    pub mod hello_world {
        #[derive(Default)]
        pub struct Input {}
        // it has more than 1 input, so it must be a lvl2. but is not referencing its self input
        pub fn config(input: &mut some_other::Input, core: &mut L0Core) {}
    }
    "#;
    let mut module = parse_module(code);
    let out = verify(&mut module);
    assert_eq!(module.level, ModuleLevel::Level2);
    let err = out.err().expect("Expected to get an error from verify");
    assert_contains_str(err, "but its config function signature does not reference its own Input struct");
}

#[test]
fn mod2_properly_detect_lvl3() {
    let code = r#"
    pub mod hello_world {
        // only 1 input, and its on some other module, this should be lvl3
        pub fn config(input: &mut other_module::Input) {}
    }
    "#;
    let mut module = parse_module(code);
    let _ = verify(&mut module);
    assert_eq!(module.level, ModuleLevel::Level3);
}

#[test]
fn mod2_lvl3_cannot_have_input_struct() {
    let code = r#"
    pub mod hello_world {
        pub struct Input {}
        // this implies it is a lvl3 module
        pub fn config(input: &mut other_module::Input) {}
    }
    "#;
    let mut module = parse_module(code);
    let out = verify(&mut module);
    assert_eq!(module.level, ModuleLevel::Level3);
    let err = out.err().expect("Expected an error from verify fn");
    assert_contains_str(err, "Level3 modules cannot have an input struct")
}

#[test]
fn mod2_invalid_lvl2_module_signature() {
    let code = r#"
    pub mod hello_world {
        // only 1 input, but its on L0. Therefore hello_world must be lvl2. but level2 modules must
        // start with a Self Input.
        pub fn config(input: &mut L0Core) {}
    }
    "#;
    let mut module = parse_module(code);
    let out = verify(&mut module);
    assert_eq!(module.level, ModuleLevel::Level2);
    let err = out.err().expect("Expected verify output to be an error");
    assert_contains_str(err, "Your config function only has 1 input, and it is a L0 input");
}

#[test]
fn mod2_config_must_be_pub_lvl2() {
    let code = r#"
    pub mod hello_world {
        #[derive(Default)]
        pub struct Input {}
        fn config(input: &mut Input) {}
    }
    "#;
    let mut module = parse_module(code);
    let out = verify(&mut module);
    assert_eq!(module.level, ModuleLevel::Level2);
    let err = out.err().expect("Expected verify output to be an error");
    assert_contains_str(err, "Config function in module hello_world is not public");
}

#[test]
fn mod2_config_must_be_pub_lvl3() {
    let code = r#"
    pub mod hello_world {
        fn config(input: &mut other_mod::Input) {}
    }
    "#;
    let mut module = parse_module(code);
    let out = verify(&mut module);
    assert_eq!(module.level, ModuleLevel::Level3);
    let err = out.err().expect("Expected verify output to be an error");
    assert_contains_str(err, "Config function in module hello_world is not public");
}

#[test]
fn mod2_invalid_unknown_module_signature() {
    let code = r#"
    pub mod hello_world {
        // only 1 input, and its some random input we dont know about.
        // this is invalid
        pub fn config(input: &mut other_lib::OtherThing) {}
    }
    "#;
    let mut module = parse_module(code);
    let out = verify(&mut module);
    let err = out.err().expect("Expected verify output to be an error");
    assert_contains_str(err, "Your config function only has 1 input: & mut other_lib :: OtherThing,");
}

#[test]
fn mod2_invalid_config_empty() {
    let code = r#"
    pub mod hello_world {
        pub fn config() {}
    }
    "#;
    let mut module = parse_module(code);
    let out = verify(&mut module);
    let err = out.err().expect("expected the output of verify to be an error");
    assert_contains_str(err, "Your config function signature is empty");
}

#[test]
fn mod2_non_lvl3_must_be_pub() {
    let code = r#"
    mod hello_world {
        #[derive(Default)]
        pub struct Input { pub a: u32 }
        pub fn config(input: &mut Input) {}
    }
    "#;
    let mut module = parse_module(code);
    let out = verify(&mut module);
    assert!(out.is_err());
    let err = out.err().unwrap();
    assert!(err.contains("must be public"));
}

#[test]
fn mod2_lvl3_outputs_can_only_depend_on_its_corresponding_l2_mod() {
    let code = r#"
    mod hello_world {
        pub mod outputs {
            use some_other_dep::outputs::*;
        }
        pub fn config(input: &mut l2_dep::Input) {}
    }
    "#;
    let mut module = parse_module(code);
    // the level-2 module `l2_dep` is known; the outputs are checked after it was found
    assert!(verify(&mut module).is_ok());
    let out = module.verify_outputs_shape();
    assert!(out.is_err());
    let err = out.err().unwrap();
    assert_contains_str(err, "Expected to only see use statements from Level2 module l2_dep, but found some_other_dep");
}

#[test]
fn module_loading_mod2_outputs_work() {
    let code = r#"
    mod hello_world {
        #[derive(Default)]
        pub struct Input { pub a: u32 }
        pub fn config(input: &mut Input) {}

        // it is invalid to have an outputs section like this:
        // this would fail verification. but for the purpose of this test
        // we put all cases in 1 module. this works
        // because this test case doesnt run verification
        pub mod outputs {
            use other_module::outputs; // should be ignored
            use something::outputs::specific;
            use apples::outputs::*;
            pub const HELLO: &'static str = "dsa";
        }
    }
    "#;
    let module = parse_module(code);
    assert!(matches!(&module.outputs[0], OutputType::SpecificFromModule(a, b) if a == "something" && b == "specific"));
    assert!(matches!(&module.outputs[1], OutputType::AllFromModule(a) if a == "apples"));
    assert!(matches!(&module.outputs[2], OutputType::SpecificConst(a, b) if a == "HELLO" && b == "dsa"));
}

#[test]
fn module_text_leaves_out_attributes() {
    let module = parse_module("#[hira] pub mod m { pub fn config(input: &mut x::Input) {} }");
    assert_eq!(module.name, "m");
    assert!(module.is_pub);
    assert!(!module.contents.contains("hira"));
    assert!(module.contents.starts_with("pub mod m"));
    assert_eq!(module.level, ModuleLevel::Level1);
}

fn struct_attrs(code: &str) -> (Vec<AttrItem>, Vec<hira::syn_model::FieldItem>) {
    let s = syn::parse_str::<syn::ItemStruct>(code).unwrap();
    let fields = s
        .fields
        .iter()
        .map(|f| hira::syn_model::FieldItem {
            name: f.ident.as_ref().map(|i| i.to_string()),
            ty: f.ty.to_token_stream().to_string(),
            attrs: f.attrs.iter().map(attr_item).collect(),
        })
        .collect();
    (s.attrs.iter().map(attr_item).collect(), fields)
}

#[test]
fn documentation_and_fields_are_read() {
    let (attrs, fields) = struct_attrs(
        "/// The input.\n/// Second line.\n#[derive(Default, Debug)]\n#[serde::something]\npub struct Input {\n    /// how many\n    pub count: u32,\n    pub name: String,\n}",
    );
    assert_eq!(hira::syn_model::parse_documentation_from_attributes(&attrs), "The input. Second line.");
    assert!(hira::syn_model::has_derive(&attrs[2], "Default"));
    assert!(hira::syn_model::has_derive(&attrs[2], "Debug"));
    assert!(!hira::syn_model::has_derive(&attrs[2], "Clone"));
    assert!(!hira::syn_model::has_derive(&attrs[0], "Default"));
    assert!(hira::syn_model::has_attr_that_ends_in(&attrs, "something"));
    assert!(!hira::syn_model::has_attr_that_ends_in(&attrs, "other"));
    assert!(hira::syn_model::has_comment(&attrs, "Second"));
    assert!(!hira::syn_model::has_comment(&attrs, "Third"));
    let entries = hira::syn_model::iter_fields(&fields);
    assert_eq!(entries[0], ("count".to_string(), "u32".to_string(), "how many".to_string()));
    assert_eq!(entries[1], ("name".to_string(), "String".to_string(), "".to_string()));
}

#[test]
fn visibility_is_set() {
    let mut v = ItemVisibility::Inherited;
    assert!(!hira::syn_model::is_public(&v));
    hira::syn_model::set_visibility(&mut v, true);
    assert!(hira::syn_model::is_public(&v));
    hira::syn_model::set_visibility(&mut v, false);
    assert_eq!(v, ItemVisibility::Inherited);
}
