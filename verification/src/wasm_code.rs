use vstd::prelude::*;
use vstd::string::*;

use crate::capabilities::lemma_first_module;
use crate::module_loading::{deps_view, DepV, DependencyTypeName, HiraModule2, ModuleLevel};
use crate::shared_files::{first_module, HiraConfig};
use crate::text::{concat3, decimal, push_decimal, to_string};
use crate::use_paths::{convert_to_snake_case, snake_case};

verus! {

/// What a module builds on, as the code that configures it is written: a module (with its
/// own dependencies) or a level-0 capability by its type name.
#[derive(Debug)]
pub enum DependencyType {
    Mod1or2(DependencyConfig),
    Library(String),
}

/// A module to configure: its name, its level, and what it builds on, in the order of its
/// config function's parameters.
#[derive(Debug)]
pub struct DependencyConfig {
    pub name: String,
    pub level: ModuleLevel,
    pub deps: Vec<DependencyType>,
}

/// An ASCII identifier: a letter or `_`, then letters, digits and `_`.
pub open spec fn ascii_ident(s: Seq<char>) -> bool {
    &&& s.len() > 0
    &&& (('a' <= s[0] && s[0] <= 'z') || ('A' <= s[0] && s[0] <= 'Z') || s[0] == '_')
    &&& forall|i: int|
        0 <= i < s.len() ==> (('a' <= #[trigger] s[i] && s[i] <= 'z') || ('A' <= s[i] && s[i]
            <= 'Z') || ('0' <= s[i] && s[i] <= '9') || s[i] == '_')
}

/// Every name in the configuration, and the snake-case name of every capability, is an
/// identifier (the code that configures it names them so).
pub open spec fn names_ok(d: DependencyConfig) -> bool {
    names_okv(config_view(d))
}

pub open spec fn names_okv(d: DepConfigV) -> bool
    decreases d, 0nat,
{
    ascii_ident(d.name) && deps_okv(d.deps)
}

pub open spec fn deps_okv(deps: Seq<DepTypeV>) -> bool
    decreases deps, deps.len(),
{
    if deps.len() == 0 {
        true
    } else {
        deps_okv(deps.drop_last()) && match deps.last() {
            DepTypeV::Mod(x) => names_okv(x),
            DepTypeV::Lib(x) => ascii_ident(snake_case(x)),
        }
    }
}

/// The name of the variable that holds the `i`th dependency's settings of module `name`.
pub open spec fn conf_name(name: Seq<char>, i: nat) -> Seq<char> {
    "conf_"@ + name + "_"@ + decimal(i)
}

/// The statement that makes the `i`th dependency's settings, with a space after it.
pub open spec fn let_text(name: Seq<char>, i: nat, dep: DependencyType) -> Seq<char> {
    match dep {
        DependencyType::Mod1or2(x) => "let mut "@ + conf_name(name, i) + " = "@ + x.name@
            + " :: Input :: default () ; "@,
        DependencyType::Library(_) => "library_obj . set_current_module (\""@ + name
            + "\") ; "@,
    }
}

/// The argument that passes the `i`th dependency, with a space before it.
pub open spec fn pass_text(name: Seq<char>, i: nat, dep: DependencyType) -> Seq<char> {
    match dep {
        DependencyType::Mod1or2(_) => " & mut "@ + conf_name(name, i) + " ,"@,
        DependencyType::Library(x) => " & mut library_obj . "@ + snake_case(x@) + " ,"@,
    }
}

pub open spec fn lets_text(name: Seq<char>, deps: Seq<DependencyType>) -> Seq<char>
    decreases deps.len(),
{
    if deps.len() == 0 {
        Seq::empty()
    } else {
        lets_text(name, deps.drop_last()) + let_text(name, (deps.len() - 1) as nat, deps.last())
    }
}

pub open spec fn passes_text(name: Seq<char>, deps: Seq<DependencyType>) -> Seq<char>
    decreases deps.len(),
{
    if deps.len() == 0 {
        Seq::empty()
    } else {
        passes_text(name, deps.drop_last()) + pass_text(name, (deps.len() - 1) as nat, deps.last())
    }
}

/// The code that configures the module dependencies, each with a space before it.
pub open spec fn nested_text(name: Seq<char>, deps: Seq<DependencyType>) -> Seq<char>
    decreases deps, deps.len(),
{
    if deps.len() == 0 {
        Seq::empty()
    } else {
        nested_text(name, deps.drop_last()) + match deps.last() {
            DependencyType::Mod1or2(x) => " "@ + calling_text(x, conf_name(name, (deps.len() - 1) as nat)),
            DependencyType::Library(_) => Seq::empty(),
        }
    }
}

/// The code that configures module `d` with the settings in `first`: the settings of each
/// dependency are made (a capability marks the module as the current one), the module's
/// config function is called with them, then each module dependency is configured in turn;
/// tokens are printed separated by spaces, as the token printer does.
pub open spec fn calling_text(d: DependencyConfig, first: Seq<char>) -> Seq<char>
    decreases d, 1nat,
{
    lets_text(d.name@, d.deps@) + d.name@ + " :: config (& mut "@ + first + " ,"@ + passes_text(
        d.name@,
        d.deps@,
    ) + ") ;"@ + nested_text(d.name@, d.deps@)
}

/// The user's module tokens printed, with the space that follows them when there are any.
pub open spec fn spliced(def_text: Seq<char>) -> Seq<char> {
    if def_text.len() == 0 {
        Seq::empty()
    } else {
        def_text + " "@
    }
}

/// The source of the crate that runs a level-3 module: it takes the dependency crate, holds
/// the user's module (`def_text`, its tokens printed), and has an entry point that makes the
/// level-2 module `mod2`'s default settings, lets the user's module `name3` configure them,
/// then configures the level-2 module (`calling`). The web form exchanges JSON with
/// JavaScript; the other form exchanges bytes through the host's functions.
pub open spec fn lvl3_text(
    name3: Seq<char>,
    def_text: Seq<char>,
    calling: Seq<char>,
    dep_crate: Seq<char>,
    mod2: Seq<char>,
    web: bool,
) -> Seq<char> {
    if web {
        "extern crate hira_base ; extern crate serde_json ; extern crate sapp_jsutils ; extern crate "@
                + dep_crate
                + " ; use hira_base :: LibraryObj ; use "@
                + dep_crate
                + " :: * ; "@
                + spliced(def_text)
                + "fn create_js_obj (typ : & str , err : String) -> sapp_jsutils :: JsObject { let mut obj = serde_json :: Map :: new () ; obj . insert (typ . to_string () , serde_json :: Value :: String (err)) ; let val = serde_json :: Value :: Object (obj) ; let err_ser = serde_json :: to_string (& val) . unwrap_or (\"{\\\"err\\\":\\\"failed to serialize error\\\"}\" . to_string ()) ; sapp_jsutils :: JsObject :: string (& err_ser) } # [no_mangle] pub extern \"C\" fn get_module_default () -> sapp_jsutils :: JsObject { let default_conf = "@
                + mod2
                + " :: Input :: default () ; match serde_json :: to_string (& default_conf) { Ok (s) => { create_js_obj (\"ok\" , s) } Err (e) => { create_js_obj (\"err\" , format ! (\"Failed to serialize default Input\\n{:?}\" , e)) } } } # [no_mangle] pub extern \"C\" fn run_module_config (lib_obj : sapp_jsutils :: JsObject , conf0data : sapp_jsutils :: JsObject) -> sapp_jsutils :: JsObject { let mut lib_obj_str = String :: new () ; lib_obj . to_string (& mut lib_obj_str) ; let mut conf0data_str = String :: new () ; conf0data . to_string (& mut conf0data_str) ; let mut lib_obj_actual : LibraryObj = match serde_json :: from_str (& lib_obj_str) { Ok (s) => s , Err (e) => { return create_js_obj (\"err\" , format ! (\"Failed to parse {} as LibraryObj\\n{:?}\" , lib_obj_str , e)) ; } } ; let library_obj = & mut lib_obj_actual ; let mut conf_0 = match serde_json :: from_str (& conf0data_str) { Ok (s) => s , Err (e) => { return create_js_obj (\"err\" , format ! (\"Failed to parse {} as Input\\n{:?}\" , conf0data_str , e)) ; } } ; "@
                + name3
                + " :: config (& mut conf_0) ; "@
                + calling
                + " match serde_json :: to_string (library_obj) { Ok (s) => { create_js_obj (\"ok\" , s) } Err (e) => { create_js_obj (\"err\" , format ! (\"Failed to serialize library obj\\n{:?}\" , e)) } } }"@
    } else {
        "extern crate hira_base ; extern crate "@
                + dep_crate
                + " ; use hira_base :: LibraryObj ; use "@
                + dep_crate
                + " :: * ; "@
                + spliced(def_text)
                + "# [no_mangle] pub fn wasm_main (library_obj : & mut LibraryObj) { let mut conf_0 = "@
                + mod2
                + " :: Input :: default () ; "@
                + name3
                + " :: config (& mut conf_0) ; "@
                + calling
                + " } extern \"C\" { fn get_entrypoint_alloc_size () -> u32 ; fn get_entrypoint_data (ptr : * const u8 , len : u32) ; fn set_entrypoint_data (ptr : * const u8 , len : u32) ; } # [no_mangle] pub extern fn wasm_entrypoint () -> u32 { let mut input_obj = unsafe { let len = get_entrypoint_alloc_size () as usize ; let mut data : Vec < u8 > = Vec :: with_capacity (len) ; data . set_len (len) ; let ptr = data . as_ptr () ; let len = data . len () ; get_entrypoint_data (ptr , len as _) ; match LibraryObj :: from_binary_slice (data) { Some (s) => s , None => return 1 , } } ; unsafe { let _ = wasm_main (& mut input_obj) ; let out_data = input_obj . to_binary_slice () ; let ptr = out_data . as_ptr () ; let len = out_data . len () ; set_entrypoint_data (ptr , len as _) ; } 0 }"@
    }
}

impl DependencyConfig {
    /// The code that configures this module with the settings in `first_config_ident` (see
    /// `calling_text`).
    pub fn config_calling_code(&self, first_config_ident: &str) -> (r: String)
        ensures
            r@ == calling_text(*self, first_config_ident@),
        decreases self,
    {
        let name = self.name.as_str();
        let mut lets = String::new();
        let mut passes = String::new();
        let mut nested = String::new();
        let n = self.deps.len();
        let mut i: usize = 0;
        proof {
            assert(self.deps@.subrange(0, 0) =~= Seq::<DependencyType>::empty());
        }
        while i < n
            invariant
                n == self.deps@.len(),
                name@ == self.name@,
                i <= n,
                lets@ == lets_text(self.name@, self.deps@.subrange(0, i as int)),
                passes@ == passes_text(self.name@, self.deps@.subrange(0, i as int)),
                nested@ == nested_text(self.name@, self.deps@.subrange(0, i as int)),
            decreases n - i,
        {
            let ghost sub = self.deps@.subrange(0, i + 1);
            proof {
                assert(sub.drop_last() =~= self.deps@.subrange(0, i as int));
                assert(sub.last() == self.deps@[i as int]);
            }
            let mut conf = concat3("conf_", name, "_");
            push_decimal(&mut conf, i as u64);
            match &self.deps[i] {
                DependencyType::Mod1or2(x) => {
                    lets.append("let mut ");
                    lets.append(conf.as_str());
                    lets.append(" = ");
                    lets.append(x.name.as_str());
                    lets.append(" :: Input :: default () ; ");
                    passes.append(" & mut ");
                    passes.append(conf.as_str());
                    passes.append(" ,");
                    proof {
                        assert(decreases_to!(self => self.deps));
                        assert(decreases_to!(self.deps => self.deps@));
                        assert(decreases_to!(self.deps@ => self.deps@[i as int]));
                        assert(decreases_to!(self.deps@[i as int] => *x));
                    }
                    let inner = x.config_calling_code(conf.as_str());
                    nested.append(" ");
                    nested.append(inner.as_str());
                },
                DependencyType::Library(x) => {
                    lets.append("library_obj . set_current_module (\"");
                    lets.append(name);
                    lets.append("\") ; ");
                    passes.append(" & mut library_obj . ");
                    let snake = convert_to_snake_case(x.as_str());
                    passes.append(snake.as_str());
                    passes.append(" ,");
                },
            }
            proof {
                reveal_strlit("conf_");
                reveal_strlit("_");
            }
            i = i + 1;
        }
        proof {
            assert(self.deps@.subrange(0, n as int) =~= self.deps@);
        }
        let mut out = lets;
        out.append(name);
        out.append(" :: config (& mut ");
        out.append(first_config_ident);
        out.append(" ,");
        out.append(passes.as_str());
        out.append(") ;");
        out.append(nested.as_str());
        out
    }
}

/// The source of the crate that runs a level-3 module, given its module's tokens printed
/// (see `lvl3_text`); the level-2 module is configured with the settings `conf_0`.
pub fn lvl3_code_text(name3: &str, def_text: &str, dep: &DependencyConfig, dep_crate: &str, web: bool) -> (r:
    String)
    requires
        ascii_ident(name3@),
        ascii_ident(dep_crate@),
        names_ok(*dep),
    ensures
        r@ == lvl3_text(name3@, def_text@, calling_text(*dep, "conf_0"@), dep_crate@, dep.name@, web),
{
    let calling_s = dep.config_calling_code("conf_0");
    let calling = calling_s.as_str();
    let mod2 = dep.name.as_str();
    let mut out = String::new();
    if web {
        out.append("extern crate hira_base ; extern crate serde_json ; extern crate sapp_jsutils ; extern crate ");
        out.append(dep_crate);
        out.append(" ; use hira_base :: LibraryObj ; use ");
        out.append(dep_crate);
        out.append(" :: * ; ");
        if def_text.unicode_len() > 0 {
            out.append(def_text);
            out.append(" ");
        }
        out.append("fn create_js_obj (typ : & str , err : String) -> sapp_jsutils :: JsObject { let mut obj = serde_json :: Map :: new () ; obj . insert (typ . to_string () , serde_json :: Value :: String (err)) ; let val = serde_json :: Value :: Object (obj) ; let err_ser = serde_json :: to_string (& val) . unwrap_or (\"{\\\"err\\\":\\\"failed to serialize error\\\"}\" . to_string ()) ; sapp_jsutils :: JsObject :: string (& err_ser) } # [no_mangle] pub extern \"C\" fn get_module_default () -> sapp_jsutils :: JsObject { let default_conf = ");
        out.append(mod2);
        out.append(" :: Input :: default () ; match serde_json :: to_string (& default_conf) { Ok (s) => { create_js_obj (\"ok\" , s) } Err (e) => { create_js_obj (\"err\" , format ! (\"Failed to serialize default Input\\n{:?}\" , e)) } } } # [no_mangle] pub extern \"C\" fn run_module_config (lib_obj : sapp_jsutils :: JsObject , conf0data : sapp_jsutils :: JsObject) -> sapp_jsutils :: JsObject { let mut lib_obj_str = String :: new () ; lib_obj . to_string (& mut lib_obj_str) ; let mut conf0data_str = String :: new () ; conf0data . to_string (& mut conf0data_str) ; let mut lib_obj_actual : LibraryObj = match serde_json :: from_str (& lib_obj_str) { Ok (s) => s , Err (e) => { return create_js_obj (\"err\" , format ! (\"Failed to parse {} as LibraryObj\\n{:?}\" , lib_obj_str , e)) ; } } ; let library_obj = & mut lib_obj_actual ; let mut conf_0 = match serde_json :: from_str (& conf0data_str) { Ok (s) => s , Err (e) => { return create_js_obj (\"err\" , format ! (\"Failed to parse {} as Input\\n{:?}\" , conf0data_str , e)) ; } } ; ");
        out.append(name3);
        out.append(" :: config (& mut conf_0) ; ");
        out.append(calling);
        out.append(" match serde_json :: to_string (library_obj) { Ok (s) => { create_js_obj (\"ok\" , s) } Err (e) => { create_js_obj (\"err\" , format ! (\"Failed to serialize library obj\\n{:?}\" , e)) } } }");
    } else {
        out.append("extern crate hira_base ; extern crate ");
        out.append(dep_crate);
        out.append(" ; use hira_base :: LibraryObj ; use ");
        out.append(dep_crate);
        out.append(" :: * ; ");
        if def_text.unicode_len() > 0 {
            out.append(def_text);
            out.append(" ");
        }
        out.append("# [no_mangle] pub fn wasm_main (library_obj : & mut LibraryObj) { let mut conf_0 = ");
        out.append(mod2);
        out.append(" :: Input :: default () ; ");
        out.append(name3);
        out.append(" :: config (& mut conf_0) ; ");
        out.append(calling);
        out.append(" } extern \"C\" { fn get_entrypoint_alloc_size () -> u32 ; fn get_entrypoint_data (ptr : * const u8 , len : u32) ; fn set_entrypoint_data (ptr : * const u8 , len : u32) ; } # [no_mangle] pub extern fn wasm_entrypoint () -> u32 { let mut input_obj = unsafe { let len = get_entrypoint_alloc_size () as usize ; let mut data : Vec < u8 > = Vec :: with_capacity (len) ; data . set_len (len) ; let ptr = data . as_ptr () ; let len = data . len () ; get_entrypoint_data (ptr , len as _) ; match LibraryObj :: from_binary_slice (data) { Some (s) => s , None => return 1 , } } ; unsafe { let _ = wasm_main (& mut input_obj) ; let out_data = input_obj . to_binary_slice () ; let ptr = out_data . as_ptr () ; let len = out_data . len () ; set_entrypoint_data (ptr , len as _) ; } 0 }");
    }
    out
}

/// The text of a module's tokens, as `proc_macro2` lexes and prints them, or its lexer's
/// error. Which lexer runs depends on the process, so nothing is said of the result.
#[verifier::external_body]
fn printed_tokens(s: &str) -> (r: Result<String, String>) {
    match <proc_macro2::TokenStream as std::str::FromStr>::from_str(s) {
        Ok(t) => Ok(t.to_string()),
        Err(e) => Err(format!("{:?}", e)),
    }
}

/// The source of the crate that runs the level-3 module `name3` (see `lvl3_code_text`), from
/// the module's source `def`: whatever the lexer makes of `def`, the result is that source
/// with some printing of its tokens; a module that does not lex is refused.
pub fn wasm_code_lvl3(name3: &str, def: &str, dep: &DependencyConfig, dep_crate: &str, web: bool) -> (r:
    Result<String, String>)
    requires
        ascii_ident(name3@),
        ascii_ident(dep_crate@),
        names_ok(*dep),
    ensures
        r matches Ok(t) ==> exists|def_text: Seq<char>|
            t@ == #[trigger] lvl3_text(name3@, def_text, calling_text(*dep, "conf_0"@), dep_crate@, dep.name@, web),
        r matches Err(m) ==> exists|e: Seq<char>|
            m@ == #[trigger] lvl3_refusal(e),
{
    match printed_tokens(def) {
        Ok(t) => {
            let r = lvl3_code_text(name3, t.as_str(), dep, dep_crate, web);
            Ok(r)
        },
        Err(e) => {
            let m = concat3("Failed to parse lvl3 module def as tokens\n", e.as_str(), "");
            proof {
                reveal_strlit("");
                assert(m@ =~= lvl3_refusal(e@));
            }
            Err(m)
        },
    }
}

pub open spec fn lvl3_refusal(e: Seq<char>) -> Seq<char> {
    "Failed to parse lvl3 module def as tokens\n"@ + e
}

// ---------------------------------------------------------------- gathering the modules

/// A module to configure, as a value of the specification.
pub struct DepConfigV {
    pub name: Seq<char>,
    pub level: ModuleLevel,
    pub deps: Seq<DepTypeV>,
}

pub enum DepTypeV {
    Mod(DepConfigV),
    Lib(Seq<char>),
}

pub open spec fn config_view(d: DependencyConfig) -> DepConfigV
    decreases d, 1nat,
{
    DepConfigV { name: d.name@, level: d.level, deps: dep_types_view(d.deps@) }
}

pub open spec fn dep_types_view(v: Seq<DependencyType>) -> Seq<DepTypeV>
    decreases v, v.len(),
{
    if v.len() == 0 {
        Seq::empty()
    } else {
        dep_types_view(v.drop_last()).push(
            match v.last() {
                DependencyType::Mod1or2(x) => DepTypeV::Mod(config_view(x)),
                DependencyType::Library(s) => DepTypeV::Lib(s@),
            },
        )
    }
}

/// The refusal of a module that was not loaded.
pub open spec fn not_loaded_text(name: Seq<char>) -> Seq<char> {
    "Failed to find module "@ + name + ", but this module has not been loaded yet"@
}

/// The refusal of a chain of dependencies deeper than there are modules, which only a
/// cycle makes.
pub open spec fn too_deep_text(name: Seq<char>) -> Seq<char> {
    "Module "@ + name + " depends on itself through its dependencies"@
}

/// The configuration of the module `name` and, in order, of each module it depends on, read
/// from the loaded modules; a module that is not loaded is refused, and so is a chain
/// deeper than `depth`.
#[verifier::opaque]
pub open spec fn filled(mods: Seq<HiraModule2>, name: Seq<char>, depth: nat) -> Result<DepConfigV, Seq<char>>
    decreases depth, 0nat,
{
    if depth == 0 {
        Err(too_deep_text(name))
    } else {
        match first_module(mods, name) {
            None => Err(not_loaded_text(name)),
            Some(i) => if 0 <= i < mods.len() {
                match filled_list(mods, deps_view(mods[i].compile_dependencies@), (depth - 1) as nat) {
                    Ok(ds) => Ok(DepConfigV { name, level: mods[i].level, deps: ds }),
                    Err(e) => Err(e),
                }
            } else {
                Err(not_loaded_text(name))
            },
        }
    }
}

#[verifier::opaque]
pub open spec fn filled_list(mods: Seq<HiraModule2>, deps: Seq<DepV>, depth: nat) -> Result<Seq<DepTypeV>, Seq<char>>
    decreases depth, deps.len(),
{
    if deps.len() == 0 {
        Ok(Seq::empty())
    } else {
        match filled_list(mods, deps.drop_last(), depth) {
            Err(e) => Err(e),
            Ok(v) => match deps.last() {
                DepV::Mod(n) => match filled(mods, n, depth) {
                    Ok(c) => Ok(v.push(DepTypeV::Mod(c))),
                    Err(e) => Err(e),
                },
                DepV::Lib(s) => Ok(v.push(DepTypeV::Lib(s))),
            },
        }
    }
}

/// The number of modules in a configuration, itself included.
pub open spec fn module_count(c: DepConfigV) -> nat
    decreases c, 1nat,
{
    1 + list_module_count(c.deps)
}

pub open spec fn list_module_count(v: Seq<DepTypeV>) -> nat
    decreases v, v.len(),
{
    if v.len() == 0 {
        0
    } else {
        list_module_count(v.drop_last()) + match v.last() {
            DepTypeV::Mod(c) => module_count(c),
            DepTypeV::Lib(_) => 0,
        }
    }
}

/// The refusal of a module whose source the lexer refuses.
pub open spec fn contents_refusal(name: Seq<char>, e: Seq<char>) -> Seq<char> {
    "Failed to parse module "@ + name + " as token stream\n"@ + e
}

/// A refusal of the lexer for one of the modules.
pub open spec fn is_lex_refusal(m: Seq<char>) -> bool {
    exists|n: Seq<char>, e: Seq<char>| m == #[trigger] contents_refusal(n, e)
}

proof fn lemma_filled_unfold(mods: Seq<HiraModule2>, name: Seq<char>, depth: nat)
    ensures
        filled(mods, name, depth) == if depth == 0 {
            Err(too_deep_text(name))
        } else {
            match first_module(mods, name) {
                None => Err(not_loaded_text(name)),
                Some(i) => if 0 <= i < mods.len() {
                    match filled_list(mods, deps_view(mods[i].compile_dependencies@), (depth - 1) as nat) {
                        Ok(ds) => Ok(DepConfigV { name, level: mods[i].level, deps: ds }),
                        Err(e) => Err(e),
                    }
                } else {
                    Err(not_loaded_text(name))
                },
            }
        },
{
    reveal_with_fuel(filled, 2);
    reveal_with_fuel(filled_list, 2);
}

proof fn lemma_filled_list_empty(mods: Seq<HiraModule2>, deps: Seq<DepV>, depth: nat)
    requires
        deps.len() == 0,
    ensures
        filled_list(mods, deps, depth) == Ok::<Seq<DepTypeV>, Seq<char>>(Seq::empty()),
{
    reveal_with_fuel(filled_list, 1);
}

proof fn lemma_filled_list_step(mods: Seq<HiraModule2>, deps: Seq<DepV>, depth: nat)
    requires
        deps.len() > 0,
    ensures
        filled_list(mods, deps, depth) == match filled_list(mods, deps.drop_last(), depth) {
            Err(e) => Err(e),
            Ok(v) => match deps.last() {
                DepV::Mod(nm) => match filled(mods, nm, depth) {
                    Ok(c) => Ok(v.push(DepTypeV::Mod(c))),
                    Err(e) => Err(e),
                },
                DepV::Lib(x) => Ok(v.push(DepTypeV::Lib(x))),
            },
        },
{
    reveal_with_fuel(filled_list, 2);
    reveal_with_fuel(filled, 2);
}

proof fn lemma_filled_list_prefix(mods: Seq<HiraModule2>, deps: Seq<DepV>, depth: nat, j: int)
    requires
        0 <= j <= deps.len(),
        filled_list(mods, deps.subrange(0, j), depth) is Err,
    ensures
        filled_list(mods, deps, depth) == filled_list(mods, deps.subrange(0, j), depth),
    decreases deps.len(),
{
    if j < deps.len() {
        assert(deps.drop_last().subrange(0, j) =~= deps.subrange(0, j));
        lemma_filled_list_prefix(mods, deps.drop_last(), depth, j);
        lemma_filled_list_step(mods, deps, depth);
    } else {
        assert(deps.subrange(0, j) =~= deps);
    }
}

/// Gathers the configuration of the module `name` from the loaded modules (see `filled`),
/// and adds the source of each module, as the lexer prints its tokens, to `dep_contents`, a
/// module before the ones it depends on. Whatever the lexer says, a successful result is
/// that configuration with one source per module; a refusal is `filled`'s or the lexer's.
#[verifier::rlimit(50)]
pub fn fill_dependency_config(
    hira_conf: &HiraConfig,
    name: &str,
    depth: usize,
    dep_contents: &mut Vec<String>,
) -> (r: Result<DependencyConfig, String>)
    ensures
        r matches Ok(c) ==> filled(hira_conf.modules2@, name@, depth as nat) == Ok::<DepConfigV, Seq<char>>(config_view(c))
            && final(dep_contents)@.len() == old(dep_contents)@.len() + module_count(config_view(c)),
        filled(hira_conf.modules2@, name@, depth as nat) matches Err(m) ==> r is Err,
        r matches Err(m) ==> filled(hira_conf.modules2@, name@, depth as nat) == Err::<DepConfigV, Seq<char>>(m@)
            || is_lex_refusal(m@),
    decreases depth,
{
    let ghost mods = hira_conf.modules2@;
    proof {
        lemma_filled_unfold(mods, name@, depth as nat);
    }
    if depth == 0 {
        let m = concat3("Module ", name, " depends on itself through its dependencies");
        return Err(m);
    }
    proof {
        lemma_first_module(mods, name@);
    }
    let module = match hira_conf.get_mod2(name) {
        Some(m) => m,
        None => {
            let m = concat3("Failed to find module ", name, ", but this module has not been loaded yet");
            return Err(m);
        },
    };
    let ghost idx = first_module(mods, name@)->Some_0;
    assert(mods[idx] == *module);
    match printed_tokens(module.contents.as_str()) {
        Ok(t) => {
            dep_contents.push(t);
        },
        Err(e) => {
            let mut m = concat3("Failed to parse module ", name, " as token stream\n");
            m.append(e.as_str());
            proof {
                assert(m@ == contents_refusal(name@, e@));
            }
            return Err(m);
        },
    }
    let ghost deps = deps_view(module.compile_dependencies@);
    let ghost start_len = old(dep_contents)@.len() + 1;
    let mut out: Vec<DependencyType> = Vec::new();
    let n = module.compile_dependencies.len();
    let mut k: usize = 0;
    proof {
        assert(deps.subrange(0, 0) =~= Seq::<DepV>::empty());
        assert(dep_types_view(out@) =~= Seq::<DepTypeV>::empty());
        lemma_filled_list_empty(mods, deps.subrange(0, 0), (depth - 1) as nat);
    }
    while k < n
        invariant
            n == module.compile_dependencies@.len(),
            deps == deps_view(module.compile_dependencies@),
            0 < depth,
            k <= n,
            mods == hira_conf.modules2@,
            filled(mods, name@, depth as nat) == match filled_list(mods, deps, (depth - 1) as nat) {
                Ok(ds) => Ok(DepConfigV { name: name@, level: module.level, deps: ds }),
                Err(e) => Err(e),
            },
            filled_list(mods, deps.subrange(0, k as int), (depth - 1) as nat) == Ok::<Seq<DepTypeV>, Seq<char>>(dep_types_view(out@)),
            dep_contents@.len() == start_len + list_module_count(dep_types_view(out@)),
        decreases n - k,
    {
        let ghost sub = deps.subrange(0, k + 1);
        proof {
            assert(sub.drop_last() =~= deps.subrange(0, k as int));
            assert(sub.last() == deps[k as int]);
            lemma_filled_list_step(mods, sub, (depth - 1) as nat);
        }
        let ghost before = dep_types_view(out@);
        let ghost old_out = out@;
        match &module.compile_dependencies[k] {
            DependencyTypeName::Mod1Or2(d) => {
                let c = match fill_dependency_config(hira_conf, d.as_str(), depth - 1, dep_contents) {
                    Ok(c) => c,
                    Err(e) => {
                        proof {
                            assert(deps[k as int] == DepV::Mod(d@));
                            if filled(mods, d@, (depth - 1) as nat) == Err::<DepConfigV, Seq<char>>(e@) {
                                assert(filled_list(mods, sub, (depth - 1) as nat) == Err::<Seq<DepTypeV>, Seq<char>>(e@));
                                lemma_filled_list_prefix(mods, deps, (depth - 1) as nat, k + 1);
                            }
                        }
                        return Err(e);
                    },
                };
                let ghost cv = config_view(c);
                assert(deps[k as int] == DepV::Mod(d@));
                out.push(DependencyType::Mod1or2(c));
                assert(out@.drop_last() =~= old_out);
                proof {
                    assert(dep_types_view(out@) == before.push(DepTypeV::Mod(cv)));
                    assert(before.push(DepTypeV::Mod(cv)).drop_last() =~= before);
                }
            },
            DependencyTypeName::Library(s) => {
                let ghost sv = s@;
                assert(deps[k as int] == DepV::Lib(sv));
                out.push(DependencyType::Library(s.clone()));
                assert(out@.drop_last() =~= old_out);
                proof {
                    assert(dep_types_view(out@) =~= before.push(DepTypeV::Lib(sv)));
                    assert(before.push(DepTypeV::Lib(sv)).drop_last() =~= before);
                }
            },
        }
        k = k + 1;
    }
    proof {
        assert(deps.subrange(0, n as int) =~= deps);
    }
    let r = DependencyConfig { name: to_string(name), level: module.level, deps: out };
    Ok(r)
}

/// The code of the crate that holds the modules a level-3 module builds on: the base crate
/// is taken in, then the source of each module follows.
pub open spec fn dependency_crate_text(contents: Seq<Seq<char>>) -> Seq<char>
    decreases contents.len(),
{
    if contents.len() == 0 {
        "extern crate hira_base ; use hira_base :: * ;"@
    } else {
        dependency_crate_text(contents.drop_last()) + spliced_before(contents.last())
    }
}

/// A space and the text, when there is any.
pub open spec fn spliced_before(t: Seq<char>) -> Seq<char> {
    if t.len() == 0 {
        Seq::empty()
    } else {
        " "@ + t
    }
}

/// What the three crates that run a level-3 module are made of: the base code, the crate of
/// the modules it builds on, and the user's crate (see `get_wasm_code_to_compile2`).
pub open spec fn compiled_crates_ok(
    r: Seq<(Seq<char>, Seq<char>)>,
    conf: HiraConfig,
    m: HiraModule2,
    web: bool,
) -> bool {
    let dep_name = "dependencies_"@ + m.name@;
    &&& r.len() == 3
    &&& r[0] == ("hira_base"@, conf.hira_base_code@)
    &&& r[1].0 == dep_name
    &&& r[2].0 == m.name@
    &&& exists|d: Seq<char>, dc: DependencyConfig, contents: Seq<Seq<char>>|
        #![trigger lvl3_text(m.name@, d, calling_text(dc, "conf_0"@), dep_name, dc.name@, web), dependency_crate_text(contents)]
        {
            &&& m.lvl3_module_depends_on matches Some(l2) && filled(conf.modules2@, l2@, conf.modules2@.len())
                == Ok::<DepConfigV, Seq<char>>(config_view(dc))
            &&& contents.len() == module_count(config_view(dc))
            &&& r[1].1 == dependency_crate_text(contents)
            &&& r[2].1 == lvl3_text(m.name@, d, calling_text(dc, "conf_0"@), dep_name, dc.name@, web)
        }
}

pub open spec fn pairs_of(v: Seq<(String, String)>) -> Seq<(Seq<char>, Seq<char>)> {
    Seq::new(v.len(), |i: int| (v[i].0@, v[i].1@))
}

/// The three crates that run the level-3 module `m`: the base code, the crate of the
/// modules it builds on (gathered by `fill_dependency_config`, as deep as there are
/// modules), and the user's crate (see `wasm_code_lvl3`). A module with no level-2
/// dependency is refused, and so is what `fill_dependency_config` or `wasm_code_lvl3`
/// refuses.
pub fn get_wasm_code_to_compile2(hira_conf: &HiraConfig, m: &HiraModule2, web: bool) -> (r: Result<
    Vec<(String, String)>,
    String,
>)
    requires
        ascii_ident(m.name@),
        m.lvl3_module_depends_on matches Some(l2) ==> (filled(hira_conf.modules2@, l2@, hira_conf.modules2@.len()) matches Ok(c) ==> names_okv(c)),
    ensures
        m.lvl3_module_depends_on is None ==> (r matches Err(e) && e@ == "Detected "@ + m.name@ + " as "@
            + crate::module_loading::level_name(m.level)
            + ", but failed to find a level2 module's input in the config function signature"@),
        (m.lvl3_module_depends_on matches Some(l2) && filled(hira_conf.modules2@, l2@, hira_conf.modules2@.len()) is Err) ==> r is Err,
        r matches Ok(v) ==> compiled_crates_ok(pairs_of(v@), *hira_conf, *m, web),
{
    let l2 = match m.level3_get_depends_on(m.lvl3_module_depends_on.clone()) {
        Ok(s) => s,
        Err(e) => {
            return Err(e);
        },
    };
    let mut contents: Vec<String> = Vec::new();
    let dc = match fill_dependency_config(hira_conf, l2.as_str(), hira_conf.modules2.len(), &mut contents) {
        Ok(c) => c,
        Err(e) => {
            return Err(e);
        },
    };
    let dep_name = concat3("dependencies_", m.name.as_str(), "");
    let mut module_code = to_string("extern crate hira_base ; use hira_base :: * ;");
    let n = contents.len();
    let mut i: usize = 0;
    proof {
        reveal_strlit("");
        assert(contents@.subrange(0, 0) =~= Seq::<String>::empty());
        assert(dependency_crate_text(crate::text::strings_view(contents@.subrange(0, 0))) == module_code@);
    }
    while i < n
        invariant
            n == contents@.len(),
            i <= n,
            module_code@ == dependency_crate_text(crate::text::strings_view(contents@.subrange(0, i as int))),
        decreases n - i,
    {
        let ghost before = crate::text::strings_view(contents@.subrange(0, i as int));
        if contents[i].unicode_len() > 0 {
            module_code.append(" ");
            module_code.append(contents[i].as_str());
        }
        proof {
            let now = crate::text::strings_view(contents@.subrange(0, i + 1));
            assert(now.drop_last() =~= before);
            assert(now.last() == contents@[i as int]@);
            reveal_strlit(" ");
        }
        i = i + 1;
    }
    proof {
        assert(contents@.subrange(0, n as int) =~= contents@);
    }
    proof {
        reveal_strlit("dependencies_");
        reveal_strlit("");
        let p = "dependencies_"@;
        assert(dep_name@ =~= p + m.name@);
        assert forall|i: int| 0 <= i < dep_name@.len() implies (('a' <= #[trigger] dep_name@[i] && dep_name@[i] <= 'z') || ('A' <= dep_name@[i] && dep_name@[i] <= 'Z') || ('0' <= dep_name@[i] && dep_name@[i] <= '9') || dep_name@[i] == '_') by {
            if i >= p.len() {
                assert(dep_name@[i] == m.name@[i - p.len()]);
            }
        }
    }
    let users = match wasm_code_lvl3(m.name.as_str(), m.contents.as_str(), &dc, dep_name.as_str(), web) {
        Ok(u) => u,
        Err(e) => {
            return Err(e);
        },
    };
    let mut out: Vec<(String, String)> = Vec::new();
    out.push((to_string("hira_base"), hira_conf.hira_base_code.clone()));
    let ghost mc = module_code@;
    out.push((dep_name, module_code));
    out.push((m.name.clone(), users));
    proof {
        assert(dep_name@ =~= "dependencies_"@ + m.name@);
        let pv = pairs_of(out@);
        let cs = crate::text::strings_view(contents@);
        assert(pv[1].1 == dependency_crate_text(cs));
        let d = choose|d: Seq<char>| users@ == lvl3_text(m.name@, d, calling_text(dc, "conf_0"@), dep_name@, dc.name@, web);
        assert(pv[2].1 == lvl3_text(m.name@, d, calling_text(dc, "conf_0"@), dep_name@, dc.name@, web));
        assert(cs.len() == module_count(config_view(dc)));
        assert(compiled_crates_ok(pv, *hira_conf, *m, web));
    }
    Ok(out)
}

} // verus!
