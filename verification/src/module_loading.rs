use vstd::prelude::*;
use vstd::string::*;

use crate::attributes::{assoc_get, assoc_put, lemma_assoc_put_at};
use crate::text::{
    concat3, contains_run, ends_with, push_char, remove_all, remove_all_string, seq_contains_run,
    seq_ends_with, seq_starts_with, split_once_prefix, first_run_from, starts_with, str_eq,
    strings_view, to_string, trim_string, trim_ws, is_ascii_alnum, run_at,
};

verus! {

/// The level of a module.
#[derive(PartialEq, Eq, Structural, Clone, Copy, Debug)]
pub enum ModuleLevel {
    /// built into the framework
    Level1,
    /// may depend on several level-1 and level-2 modules
    Level2,
    /// depends on exactly one level-2 module and may declare `mod outputs`
    Level3,
}

impl ModuleLevel {
    /// `Level1`.
    pub fn default() -> (r: ModuleLevel)
        ensures
            r == ModuleLevel::Level1,
    {
        ModuleLevel::Level1
    }

    /// The name of the level, as the messages print it.
    pub fn name(&self) -> (r: &'static str)
        ensures
            r@ == level_name(*self),
    {
        match self {
            ModuleLevel::Level1 => "Level1",
            ModuleLevel::Level2 => "Level2",
            ModuleLevel::Level3 => "Level3",
        }
    }
}

pub open spec fn level_name(l: ModuleLevel) -> Seq<char> {
    match l {
        ModuleLevel::Level1 => "Level1"@,
        ModuleLevel::Level2 => "Level2"@,
        ModuleLevel::Level3 => "Level3"@,
    }
}

/// One output that a module declares in its `mod outputs`.
#[derive(Debug)]
pub enum OutputType {
    /// `use some_module::outputs::*;`: all outputs of the named module
    AllFromModule(String),
    /// `use some_module::outputs::{A, B};`: (module, output) for each named output
    SpecificFromModule(String, String),
    /// `const NAME: &str = "value";`: (name, value), only for level-2 modules
    SpecificConst(String, String),
}

/// A dependency that a config function takes: a module's input or a level-0 capability.
#[derive(Debug)]
pub enum DependencyTypeName {
    Mod1Or2(String),
    Library(String),
}

pub enum DepV {
    Mod(Seq<char>),
    Lib(Seq<char>),
}

pub open spec fn dep_view(d: DependencyTypeName) -> DepV {
    match d {
        DependencyTypeName::Mod1Or2(s) => DepV::Mod(s@),
        DependencyTypeName::Library(s) => DepV::Lib(s@),
    }
}

pub open spec fn deps_view(v: Seq<DependencyTypeName>) -> Seq<DepV> {
    Seq::new(v.len(), |i: int| dep_view(v[i]))
}

pub open spec fn dep_name(d: DepV) -> Seq<char> {
    match d {
        DepV::Mod(s) => s,
        DepV::Lib(s) => s,
    }
}

/// What is known of a module from its source.
#[derive(Debug)]
pub struct HiraModule2 {
    pub name: String,
    pub contents: String,
    pub config_fn_is_pub: bool,
    /// the parameter types of the config function as printed, such as `& mut Input`
    pub config_fn_signature_inputs: Vec<String>,
    pub is_pub: bool,
    pub input_struct_has_default: bool,
    pub input_struct: String,
    pub level: ModuleLevel,
    /// the first name of each `use` path, each once
    pub use_dependencies: Vec<String>,
    pub compile_dependencies: Vec<DependencyTypeName>,
    pub lvl3_module_depends_on: Option<String>,
    pub extern_crates: Vec<String>,
    pub outputs: Vec<OutputType>,
    /// the outputs of a level-3 module, resolved from the modules it takes them from
    pub resolved_outputs: crate::kv::StrMap,
    /// capability name, parameter list pairs; each name once
    pub capability_params: Vec<(String, Vec<String>)>,
}

/// Where the cached description of a module is stored.
pub fn get_cached_json_path(module_name: &str, cache_dir: &str) -> (r: String)
    ensures
        r@ == cache_dir@ + "/"@ + module_name@ + ".json"@,
{
    let mut out = concat3(cache_dir, "/", module_name);
    out.append(".json");
    out
}

/// The dependency that one config parameter type adds, if any: `& mut Input` adds none; a
/// type ending in `Input` (after `& mut` is taken out and the rest trimmed) adds the module
/// before its first `::`, if it has one; a type starting with `L0` adds that capability.
pub open spec fn dep_of_input(s: Seq<char>) -> Option<DepV> {
    let after_mut = trim_ws(remove_all(s, "& mut"@));
    if s == "& mut Input"@ {
        None
    } else if seq_ends_with(after_mut, "Input"@) {
        match first_run_from(s, "::"@, 0) {
            Some(i) => Some(DepV::Mod(trim_ws(remove_all(s.subrange(0, i), "& mut"@)))),
            None => None,
        }
    } else if seq_starts_with(after_mut, "L0"@) {
        Some(DepV::Lib(after_mut))
    } else {
        None
    }
}

/// The dependencies that the config parameter types add, in order.
pub open spec fn deps_of_inputs(inputs: Seq<Seq<char>>) -> Seq<DepV>
    decreases inputs.len(),
{
    if inputs.len() == 0 {
        Seq::empty()
    } else {
        deps_of_inputs(inputs.drop_last()) + match dep_of_input(inputs.last()) {
            Some(d) => seq![d],
            None => Seq::empty(),
        }
    }
}

fn dep_of_input_exec(s: &str) -> (r: Option<DependencyTypeName>)
    ensures
        match dep_of_input(s@) {
            Some(d) => r matches Some(x) && dep_view(x) == d,
            None => r is None,
        },
{
    if str_eq(s, "& mut Input") {
        return None;
    }
    let removed = remove_all_string(s, "& mut");
    let after_mut = trim_string(removed.as_str());
    if ends_with(after_mut.as_str(), "Input") {
        match split_once_prefix(s, "::") {
            Some(first) => {
                let m = remove_all_string(first.as_str(), "& mut");
                let t = trim_string(m.as_str());
                Some(DependencyTypeName::Mod1Or2(t))
            },
            None => None,
        }
    } else if starts_with(after_mut.as_str(), "L0") {
        Some(DependencyTypeName::Library(after_mut))
    } else {
        None
    }
}

/// Whether any of the strings contains `pat`.
pub open spec fn any_contains(v: Seq<Seq<char>>, pat: Seq<char>) -> bool {
    exists|i: int| 0 <= i < v.len() && seq_contains_run(#[trigger] v[i], pat)
}

/// Whether a dependency of the given name is among the compile dependencies.
pub open spec fn in_compile_deps(deps: Seq<DepV>, name: Seq<char>) -> bool {
    exists|i: int| 0 <= i < deps.len() && dep_name(#[trigger] deps[i]) == name
}

/// Whether a `use` of `dep` is allowed: it names a compile dependency, an extern crate, or
/// an item `pub struct dep` or `pub enum dep` of the level-0 code in `level0_code`.
pub open spec fn use_dep_allowed(
    dep: Seq<char>,
    deps: Seq<DepV>,
    externs: Seq<Seq<char>>,
    level0_code: Seq<char>,
) -> bool {
    in_compile_deps(deps, dep) || externs.contains(dep) || seq_contains_run(
        level0_code,
        "pub struct "@ + dep,
    ) || seq_contains_run(level0_code, "pub enum "@ + dep)
}

/// The index of the first `use` that is not allowed.
pub open spec fn first_bad_use(
    uses: Seq<Seq<char>>,
    deps: Seq<DepV>,
    externs: Seq<Seq<char>>,
    level0_code: Seq<char>,
    i: int,
) -> Option<int>
    decreases uses.len() - i,
{
    if i < 0 || i >= uses.len() {
        None
    } else if !use_dep_allowed(uses[i], deps, externs, level0_code) {
        Some(i)
    } else {
        first_bad_use(uses, deps, externs, level0_code, i + 1)
    }
}

pub open spec fn bad_use_message(name: Seq<char>, dep: Seq<char>) -> Seq<char> {
    "Module "@ + name
        + " has a use statement that's referencing '"@ + dep
        + "' but this item will not be compiled, and therefore the wasm build will fail. hira modules can only have use statements on modules that are part of its config signature (example: referencing other modules, using Level0 functionality + helper items) as well as external crates. If '"@
        + dep + "' is an external crate, make sure to first add an `extern crate "@ + dep
        + ";` to the top of your hira module."@
}

/// The outcome of checking the config signature of a module: the compile dependencies, the
/// level and the level-2 dependency that it ends with, and the error message if the module
/// is refused.
pub struct SignatureOutcome {
    pub deps: Seq<DepV>,
    pub level: ModuleLevel,
    pub depends_on: Option<Seq<char>>,
    pub error: Option<Seq<char>>,
}

/// The level-2 module that a level-3 module depends on: the last module among its compile
/// dependencies; a capability among them, more than one parameter, or no module is refused.
pub open spec fn level3_dependency(
    name: Seq<char>,
    deps: Seq<DepV>,
    n_inputs: nat,
) -> Result<Seq<char>, Seq<char>> {
    match first_lib(deps, 0) {
        Some(i) => Err(
            "Detected "@ + name + " as "@ + level_name(ModuleLevel::Level3)
                + ", but found it attempting to use "@ + dep_name(deps[i])
                + " in its config function. Only Level2 modules are allowed to use Level1 functionality in the config function"@,
        ),
        None => if n_inputs != 1 {
            Err(
                "Detected "@ + name + " as "@ + level_name(ModuleLevel::Level3)
                    + ", but its config function signature has more than 1 input"@,
            )
        } else {
            match last_mod(deps) {
                Some(m) => Ok(m),
                None => Err(
                    "Detected "@ + name + " as "@ + level_name(ModuleLevel::Level3)
                        + ", but failed to find a level2 module's input in the config function signature"@,
                ),
            }
        },
    }
}

/// The index of the first capability dependency from `i` on.
pub open spec fn first_lib(deps: Seq<DepV>, i: int) -> Option<int>
    decreases deps.len() - i,
{
    if i < 0 || i >= deps.len() {
        None
    } else if deps[i] is Lib {
        Some(i)
    } else {
        first_lib(deps, i + 1)
    }
}

/// The last module dependency.
pub open spec fn last_mod(deps: Seq<DepV>) -> Option<Seq<char>>
    decreases deps.len(),
{
    if deps.len() == 0 {
        None
    } else {
        match deps.last() {
            DepV::Mod(m) => Some(m),
            _ => last_mod(deps.drop_last()),
        }
    }
}

/// How the config signature check ends for module `m` (see `verify_config_signature`).
pub open spec fn signature_outcome(m: HiraModule2, level0_code: Seq<char>) -> SignatureOutcome {
    let inputs = strings_view(m.config_fn_signature_inputs@);
    let deps = deps_view(m.compile_dependencies@) + deps_of_inputs(inputs);
    let name = m.name@;
    let n = inputs.len();
    let fail = |l: ModuleLevel, msg: Seq<char>|
        SignatureOutcome { deps, level: l, depends_on: None, error: Some(msg) };
    if n == 0 {
        fail(
            m.level,
            "Your config function signature is empty. Make sure to have at least 1 input parameter in your config function. For example `pub fn config(some_input: &mut some_other_module::Input)`"@,
        )
    } else {
        let lv: Option<ModuleLevel> = if n == 1 {
            if inputs[0] == "& mut Input"@ {
                Some(ModuleLevel::Level2)
            } else if deps.len() == 1 {
                match deps[0] {
                    DepV::Mod(_) => Some(ModuleLevel::Level3),
                    DepV::Lib(_) => None,
                }
            } else {
                None
            }
        } else {
            Some(ModuleLevel::Level2)
        };
        match lv {
            None => if n == 1 && inputs[0] != "& mut Input"@ && deps.len() == 1 {
                fail(
                    ModuleLevel::Level2,
                    "Your config function only has 1 input, and it is a L0 input. L0 inputs can only be used by level2 modules, and level2 modules must have the first parameter of their config function be `&mut Input`. Ensure your level2 module has an Input struct, and that Input struct is the first parameter to your config function."@,
                )
            } else {
                fail(
                    m.level,
                    "Your config function only has 1 input: "@ + inputs[0]
                        + ", but it is not a Self Input (&mut Input), nor it is an input on another module (&mut other_module::Input), nor is it a Level0 input (eg &mut L0Core). This is unsupported. Ensure your config function has a valid signature."@,
                )
            },
            Some(level) => {
                let ln = level_name(level);
                if level == ModuleLevel::Level2 && m.input_struct@.len() == 0 {
                    fail(
                        level,
                        "Detected module "@ + name + " as "@ + ln
                            + ", but it is missing an Input struct. All Level2 modules must contain an Input struct, and reference it in its config function signature"@,
                    )
                } else if level == ModuleLevel::Level2 && !m.input_struct_has_default {
                    fail(
                        level,
                        "Module "@ + name
                            + " has an Input struct that is missing a Default implementation. Hira relies on Input structs having a default function. Add a default implementation by adding `#[derive(Default)]` above your input struct, or create a manual default implementation inside your module like `impl Default for Input { fn default() -> Self { ... } }`"@,
                    )
                } else if level == ModuleLevel::Level2 && !any_contains(inputs, "& mut Input"@) {
                    fail(
                        level,
                        "Detected module "@ + name + " as "@ + ln
                            + ", but its config function signature does not reference its own Input struct. All Level2 modules must reference their Self Input in their config function signatures. Eg: `pub fn config(&mut Input)`"@,
                    )
                } else if level == ModuleLevel::Level2 && !m.is_pub {
                    fail(
                        level,
                        "Detected module "@ + name + " as "@ + ln
                            + ", but it is not marked public. Level2 modules must be public"@,
                    )
                } else if level == ModuleLevel::Level3 && m.input_struct@.len() > 0 {
                    fail(
                        level,
                        "Detected module "@ + name + " as "@ + ln
                            + ", but it has an input struct. Level3 modules cannot have an input struct"@,
                    )
                } else if !m.config_fn_is_pub {
                    fail(
                        level,
                        "Config function in module "@ + name
                            + " is not public. Ensure your config function starts with `pub fn config(...)`"@,
                    )
                } else {
                    let uses = strings_view(m.use_dependencies@);
                    let externs = strings_view(m.extern_crates@);
                    match first_bad_use(uses, deps, externs, level0_code, 0) {
                        Some(i) => fail(level, bad_use_message(name, uses[i])),
                        None => if level == ModuleLevel::Level3 {
                            match level3_dependency(name, deps, n) {
                                Ok(d) => SignatureOutcome {
                                    deps,
                                    level,
                                    depends_on: Some(d),
                                    error: None,
                                },
                                Err(msg) => fail(level, msg),
                            }
                        } else {
                            SignatureOutcome {
                                deps,
                                level,
                                depends_on: opt_string_view(m.lvl3_module_depends_on),
                                error: None,
                            }
                        },
                    }
                }
            },
        }
    }
}

proof fn lemma_level_by_count(m: HiraModule2, level0_code: Seq<char>)
    ensures
        ({
            let inputs = strings_view(m.config_fn_signature_inputs@);
            let deps = deps_view(m.compile_dependencies@) + deps_of_inputs(inputs);
            let o = signature_outcome(m, level0_code);
            &&& inputs.len() > 1 ==> o.level == ModuleLevel::Level2
            &&& (inputs.len() == 1 && inputs[0] == "& mut Input"@) ==> o.level == ModuleLevel::Level2
            &&& (inputs.len() == 1 && inputs[0] != "& mut Input"@ && deps.len() == 1
                && deps[0] is Mod) ==> o.level == ModuleLevel::Level3
        }),
{
}

/// Whether every character is an ASCII letter, a digit or `_`.
pub open spec fn ident_chars(x: Seq<char>) -> bool {
    forall|i: int| 0 <= i < x.len() ==> is_ascii_alnum(#[trigger] x[i]) || x[i] == '_'
}

proof fn lemma_remove_all_plain(t: Seq<char>)
    requires
        forall|i: int| 0 <= i < t.len() ==> #[trigger] t[i] != '&',
    ensures
        remove_all(t, "& mut"@) == t,
    decreases t.len(),
{
    reveal_strlit("& mut");
    if t.len() >= 5 {
        assert(t.subrange(0, 5)[0] != "& mut"@[0]);
        let rest = t.subrange(1, t.len() as int);
        assert forall|i: int| 0 <= i < rest.len() implies #[trigger] rest[i] != '&' by {
            assert(rest[i] == t[i + 1]);
        }
        lemma_remove_all_plain(rest);
        assert(seq![t[0]] + rest =~= t);
    }
}

proof fn lemma_remove_all_after_mut(t: Seq<char>)
    requires
        forall|i: int| 0 <= i < t.len() ==> #[trigger] t[i] != '&',
    ensures
        remove_all("& mut"@ + t, "& mut"@) == t,
{
    reveal_strlit("& mut");
    let s = "& mut"@ + t;
    assert(s.subrange(0, 5) =~= "& mut"@);
    assert(s.subrange(5, s.len() as int) =~= t);
    lemma_remove_all_plain(t);
}

proof fn lemma_trim_plain(t: Seq<char>)
    requires
        t.len() > 0,
        !crate::text::is_white_space(t[0]),
        !crate::text::is_white_space(t.last()),
    ensures
        trim_ws(" "@ + t) == t,
        trim_ws(" "@ + t + " "@) == t,
{
    reveal_strlit(" ");
    let a = " "@ + t;
    assert(a.subrange(1, a.len() as int) =~= t);
    assert(crate::text::trim_start_ws(a) == crate::text::trim_start_ws(t));
    let b = " "@ + t + " "@;
    assert(b.subrange(1, b.len() as int) =~= t + " "@);
    assert(crate::text::trim_start_ws(b) == crate::text::trim_start_ws(t + " "@));
    assert((t + " "@)[0] == t[0]);
    assert((t + " "@).drop_last() =~= t);
}

proof fn lemma_first_run_at(s: Seq<char>, pat: Seq<char>, i: int, k: int)
    requires
        0 <= i <= k,
        run_at(s, pat, k),
        forall|j: int| i <= j < k ==> !#[trigger] run_at(s, pat, j),
    ensures
        first_run_from(s, pat, i) == Some(k),
    decreases k - i,
{
    if i < k {
        lemma_first_run_at(s, pat, i + 1, k);
    }
}

/// A module's level is told by its config function's parameters, whatever else is wrong
/// with it (the level that `verify_config_signature` leaves is `signature_outcome`'s):
/// more than one parameter, or a lone `& mut Input`, makes a level-2 module; a lone input
/// of another module makes a level-3 module. For a module read afresh (no compile
/// dependencies yet), a lone level-0 input `& mut L0…` makes a level-2 module, and a lone
/// `& mut x :: Input` for a module name `x` makes a level-3 module whose one dependency is
/// `x`.
pub proof fn law_level_detection(m: HiraModule2, level0_code: Seq<char>, x: Seq<char>, y: Seq<char>)
    ensures
        ({
            let inputs = strings_view(m.config_fn_signature_inputs@);
            let deps = deps_view(m.compile_dependencies@) + deps_of_inputs(inputs);
            let o = signature_outcome(m, level0_code);
            let fresh = m.compile_dependencies@.len() == 0;
            &&& (inputs.len() > 1 || (inputs.len() == 1 && inputs[0] == "& mut Input"@))
                ==> o.level == ModuleLevel::Level2
            &&& (inputs.len() == 1 && inputs[0] != "& mut Input"@ && deps.len() == 1
                && deps[0] is Mod) ==> o.level == ModuleLevel::Level3
            &&& (fresh && inputs.len() == 1 && inputs[0] == "& mut L0"@ + y && ident_chars(y)
                && !seq_ends_with(y, "Input"@)) ==> o.level == ModuleLevel::Level2
            &&& (fresh && inputs.len() == 1 && inputs[0] == "& mut "@ + x + " :: Input"@ && x.len() > 0
                && ident_chars(x)) ==> o.level == ModuleLevel::Level3 && o.deps == seq![DepV::Mod(x)]
        }),
{
    let inputs = strings_view(m.config_fn_signature_inputs@);
    lemma_level_by_count(m, level0_code);
    if m.compile_dependencies@.len() == 0 {
        assert(deps_view(m.compile_dependencies@) =~= Seq::<DepV>::empty());
    }
    if inputs.len() == 1 {
        assert(inputs.drop_last() =~= Seq::<Seq<char>>::empty());
        assert(deps_of_inputs(inputs) == deps_of_inputs(inputs.drop_last()) + match dep_of_input(inputs[0]) {
            Some(d) => seq![d],
            None => Seq::<DepV>::empty(),
        });
    }
    reveal_strlit("& mut Input");
    reveal_strlit("& mut");
    reveal_strlit("& mut L0");
    reveal_strlit("L0");
    reveal_strlit(" L0");
    reveal_strlit("Input");
    reveal_strlit("& mut ");
    reveal_strlit(" :: Input");
    reveal_strlit("::");
    reveal_strlit(" ");
    reveal_strlit(" :: ");
    if m.compile_dependencies@.len() == 0 && inputs.len() == 1 && inputs[0] == "& mut L0"@ + y && ident_chars(y)
        && !seq_ends_with(y, "Input"@) {
        let s = inputs[0];
        let t = " L0"@ + y;
        assert(s =~= "& mut"@ + t);
        assert forall|i: int| 0 <= i < t.len() implies #[trigger] t[i] != '&' by {
            if i >= 3 {
                assert(t[i] == y[i - 3]);
            }
        }
        lemma_remove_all_after_mut(t);
        let u = "L0"@ + y;
        assert(t =~= " "@ + u);
        assert(u.last() == 'L' || u.last() == '0' || u.last() == y[y.len() - 1]);
        lemma_trim_plain(u);
        assert(s != "& mut Input"@) by {
            assert(s[6] == 'L');
        }
        assert(!seq_ends_with(u, "Input"@)) by {
            if u.len() >= 5 {
                if y.len() >= 5 {
                    assert(u.subrange(u.len() - 5, u.len() as int) =~= y.subrange(y.len() - 5, y.len() as int));
                } else {
                    assert(u.subrange(u.len() - 5, u.len() as int)[0] == 'L' || u.subrange(u.len() - 5, u.len() as int)[0] == '0');
                }
            }
        }
        assert(seq_starts_with(u, "L0"@)) by {
            assert(u.subrange(0, 2) =~= "L0"@);
        }
        assert(dep_of_input(s) == Some(DepV::Lib(u)));
    }
    if m.compile_dependencies@.len() == 0 && inputs.len() == 1 && inputs[0] == "& mut "@ + x + " :: Input"@
        && x.len() > 0 && ident_chars(x) {
        let s = inputs[0];
        let t = " "@ + x + " :: Input"@;
        assert(s =~= "& mut"@ + t);
        assert forall|i: int| 0 <= i < t.len() implies #[trigger] t[i] != '&' by {
            if 1 <= i < 1 + x.len() {
                assert(t[i] == x[i - 1]);
            }
        }
        lemma_remove_all_after_mut(t);
        let u = x + " :: Input"@;
        assert(t =~= " "@ + u);
        lemma_trim_plain(u);
        assert(s != "& mut Input"@) by {
            assert(s.len() != "& mut Input"@.len());
        }
        assert(seq_ends_with(u, "Input"@)) by {
            assert(u.subrange(u.len() - 5, u.len() as int) =~= "Input"@);
        }
        let k: int = 7 + x.len() as int;
        assert(run_at(s, "::"@, k)) by {
            assert(s.subrange(k, k + 2) =~= "::"@);
        }
        assert forall|j: int| 0 <= j < k implies !#[trigger] run_at(s, "::"@, j) by {
            if j < 6 {
                assert(s.subrange(j, j + 2)[0] == s[j]);
                assert(s[j] != ':');
            } else if j < 6 + x.len() {
                assert(s.subrange(j, j + 2)[0] == x[j - 6]);
            } else {
                assert(s.subrange(j, j + 2)[0] == ' ');
            }
        }
        lemma_first_run_at(s, "::"@, 0, k);
        let pre = s.subrange(0, k);
        assert(pre =~= "& mut"@ + (" "@ + x + " "@));
        assert forall|i: int| 0 <= i < (" "@ + x + " "@).len() implies #[trigger] (" "@ + x + " "@)[i] != '&' by {
            if 1 <= i < 1 + x.len() {
                assert((" "@ + x + " "@)[i] == x[i - 1]);
            }
        }
        lemma_remove_all_after_mut(" "@ + x + " "@);
        lemma_trim_plain(x);
        assert(dep_of_input(s) == Some(DepV::Mod(x)));
    }
}

pub open spec fn opt_string_view(o: Option<String>) -> Option<Seq<char>> {
    match o {
        Some(s) => Some(s@),
        None => None,
    }
}

/// The fields that the signature check leaves as they are.
pub open spec fn same_but_signature(a: HiraModule2, b: HiraModule2) -> bool {
    &&& a.name == b.name
    &&& a.contents == b.contents
    &&& a.config_fn_is_pub == b.config_fn_is_pub
    &&& a.config_fn_signature_inputs == b.config_fn_signature_inputs
    &&& a.is_pub == b.is_pub
    &&& a.input_struct_has_default == b.input_struct_has_default
    &&& a.input_struct == b.input_struct
    &&& a.use_dependencies == b.use_dependencies
    &&& a.extern_crates == b.extern_crates
    &&& a.outputs == b.outputs
    &&& a.resolved_outputs == b.resolved_outputs
    &&& a.capability_params == b.capability_params
}

impl HiraModule2 {
    /// Whether a dependency of the given name is among the compile dependencies.
    pub fn use_dep_is_in_compile_dependencies(&self, use_dep: &str) -> (r: bool)
        ensures
            r == in_compile_deps(deps_view(self.compile_dependencies@), use_dep@),
    {
        let n = self.compile_dependencies.len();
        let mut i: usize = 0;
        while i < n
            invariant
                n == self.compile_dependencies@.len(),
                0 <= i <= n,
                forall|j: int|
                    0 <= j < i ==> dep_name(deps_view(self.compile_dependencies@)[j]) != use_dep@,
            decreases n - i,
        {
            let d = match &self.compile_dependencies[i] {
                DependencyTypeName::Mod1Or2(d) => d,
                DependencyTypeName::Library(d) => d,
            };
            if str_eq(d.as_str(), use_dep) {
                assert(dep_name(deps_view(self.compile_dependencies@)[i as int]) == use_dep@);
                return true;
            }
            i = i + 1;
        }
        false
    }

    /// Checks that every `use` names a compile dependency, an extern crate, or a public
    /// struct or enum of the level-0 code `level0_code`; the error names the first that does not.
    pub fn verify_use_dependencies(&self, level0_code: &str) -> (r: Result<(), String>)
        ensures
            match first_bad_use(
                strings_view(self.use_dependencies@),
                deps_view(self.compile_dependencies@),
                strings_view(self.extern_crates@),
                level0_code@,
                0,
            ) {
                Some(i) => r matches Err(m) && m@ == bad_use_message(
                    self.name@,
                    strings_view(self.use_dependencies@)[i],
                ),
                None => r is Ok,
            },
    {
        let ghost uses = strings_view(self.use_dependencies@);
        let ghost deps = deps_view(self.compile_dependencies@);
        let ghost externs = strings_view(self.extern_crates@);
        let n = self.use_dependencies.len();
        let mut i: usize = 0;
        while i < n
            invariant
                n == self.use_dependencies@.len(),
                uses == strings_view(self.use_dependencies@),
                deps == deps_view(self.compile_dependencies@),
                externs == strings_view(self.extern_crates@),
                0 <= i <= n,
                first_bad_use(uses, deps, externs, level0_code@, 0) == first_bad_use(
                    uses,
                    deps,
                    externs,
                    level0_code@,
                    i as int,
                ),
            decreases n - i,
        {
            let dep = self.use_dependencies[i].as_str();
            let allowed = if self.use_dep_is_in_compile_dependencies(dep) {
                true
            } else if contains_string(&self.extern_crates, dep) {
                true
            } else {
                let mut a = to_string("pub struct ");
                a.append(dep);
                let mut b = to_string("pub enum ");
                b.append(dep);
                contains_run(level0_code, a.as_str()) || contains_run(level0_code, b.as_str())
            };
            if !allowed {
                let mut m = concat3("Module ", self.name.as_str(), " has a use statement that's referencing '");
                m.append(dep);
                m.append(
                    "' but this item will not be compiled, and therefore the wasm build will fail. hira modules can only have use statements on modules that are part of its config signature (example: referencing other modules, using Level0 functionality + helper items) as well as external crates. If '",
                );
                m.append(dep);
                m.append("' is an external crate, make sure to first add an `extern crate ");
                m.append(dep);
                m.append(";` to the top of your hira module.");
                return Err(m);
            }
            i = i + 1;
        }
        Ok(())
    }

    /// Checks the config signature and classifies the module: its parameter types add
    /// compile dependencies, its parameters decide its level, a level-2 module must have a
    /// public, defaulted `Input` that its config function takes, a level-3 module must have
    /// none, the config function must be public, every `use` must be allowed (see
    /// `verify_use_dependencies`), and a level-3 module records the level-2 module it
    /// depends on. Loading that module's dependencies and checking the outputs come after.
    pub fn verify_config_signature(&mut self, level0_code: &str) -> (r: Result<(), String>)
        ensures
            same_but_signature(*final(self), *old(self)),
            deps_view(final(self).compile_dependencies@) == signature_outcome(
                *old(self),
                level0_code@,
            ).deps,
            match signature_outcome(*old(self), level0_code@).error {
                Some(msg) => r matches Err(m) && m@ == msg,
                None => r is Ok && final(self).level == signature_outcome(
                    *old(self),
                    level0_code@,
                ).level && opt_string_view(final(self).lvl3_module_depends_on) == signature_outcome(
                    *old(self),
                    level0_code@,
                ).depends_on,
            },
            signature_outcome(*old(self), level0_code@).error is Some ==> final(self).level
                == signature_outcome(*old(self), level0_code@).level,
    {
        let ghost old_self = *self;
        let ghost inputs = strings_view(self.config_fn_signature_inputs@);
        let n = self.config_fn_signature_inputs.len();
        let mut i: usize = 0;
        let ghost start = deps_view(self.compile_dependencies@);
        assert(inputs.subrange(0, 0) =~= Seq::<Seq<char>>::empty());
        assert(deps_view(self.compile_dependencies@) =~= start + deps_of_inputs(inputs.subrange(0, 0)));
        while i < n
            invariant
                n == self.config_fn_signature_inputs@.len(),
                inputs == strings_view(self.config_fn_signature_inputs@),
                same_but_signature(*self, old_self),
                self.level == old_self.level,
                self.lvl3_module_depends_on == old_self.lvl3_module_depends_on,
                0 <= i <= n,
                deps_view(self.compile_dependencies@) == start + deps_of_inputs(
                    inputs.subrange(0, i as int),
                ),
            decreases n - i,
        {
            let d = dep_of_input_exec(self.config_fn_signature_inputs[i].as_str());
            let ghost before = deps_view(self.compile_dependencies@);
            assert(inputs.subrange(0, i + 1).drop_last() =~= inputs.subrange(0, i as int));
            match d {
                Some(x) => {
                    self.compile_dependencies.push(x);
                    assert(deps_view(self.compile_dependencies@) =~= before + seq![dep_view(x)]);
                },
                None => {
                    assert(before + Seq::<DepV>::empty() =~= before);
                },
            }
            i = i + 1;
        }
        assert(inputs.subrange(0, n as int) =~= inputs);
        let ghost deps = deps_view(self.compile_dependencies@);
        if n == 0 {
            return Err(
                to_string(
                    "Your config function signature is empty. Make sure to have at least 1 input parameter in your config function. For example `pub fn config(some_input: &mut some_other_module::Input)`",
                ),
            );
        }
        if n == 1 {
            if str_eq(self.config_fn_signature_inputs[0].as_str(), "& mut Input") {
                self.level = ModuleLevel::Level2;
            } else if self.compile_dependencies.len() == 1 {
                let is_mod = match &self.compile_dependencies[0] {
                    DependencyTypeName::Mod1Or2(_) => true,
                    DependencyTypeName::Library(_) => false,
                };
                if is_mod {
                    self.level = ModuleLevel::Level3;
                } else {
                    self.level = ModuleLevel::Level2;
                    return Err(
                        to_string(
                            "Your config function only has 1 input, and it is a L0 input. L0 inputs can only be used by level2 modules, and level2 modules must have the first parameter of their config function be `&mut Input`. Ensure your level2 module has an Input struct, and that Input struct is the first parameter to your config function.",
                        ),
                    );
                }
            } else {
                return Err(
                    concat3(
                        "Your config function only has 1 input: ",
                        self.config_fn_signature_inputs[0].as_str(),
                        ", but it is not a Self Input (&mut Input), nor it is an input on another module (&mut other_module::Input), nor is it a Level0 input (eg &mut L0Core). This is unsupported. Ensure your config function has a valid signature.",
                    ),
                );
            }
        } else {
            self.level = ModuleLevel::Level2;
        }
        let level = self.level;
        let ln = level.name();
        if level == ModuleLevel::Level2 {
            if self.input_struct.as_str().unicode_len() == 0 {
                let mut m = concat3("Detected module ", self.name.as_str(), " as ");
                m.append(ln);
                m.append(
                    ", but it is missing an Input struct. All Level2 modules must contain an Input struct, and reference it in its config function signature",
                );
                return Err(m);
            }
            if !self.input_struct_has_default {
                return Err(
                    concat3(
                        "Module ",
                        self.name.as_str(),
                        " has an Input struct that is missing a Default implementation. Hira relies on Input structs having a default function. Add a default implementation by adding `#[derive(Default)]` above your input struct, or create a manual default implementation inside your module like `impl Default for Input { fn default() -> Self { ... } }`",
                    ),
                );
            }
            if !any_contains_exec(&self.config_fn_signature_inputs, "& mut Input") {
                let mut m = concat3("Detected module ", self.name.as_str(), " as ");
                m.append(ln);
                m.append(
                    ", but its config function signature does not reference its own Input struct. All Level2 modules must reference their Self Input in their config function signatures. Eg: `pub fn config(&mut Input)`",
                );
                return Err(m);
            }
            if !self.is_pub {
                let mut m = concat3("Detected module ", self.name.as_str(), " as ");
                m.append(ln);
                m.append(", but it is not marked public. Level2 modules must be public");
                return Err(m);
            }
        }
        if level == ModuleLevel::Level3 {
            if self.input_struct.as_str().unicode_len() > 0 {
                let mut m = concat3("Detected module ", self.name.as_str(), " as ");
                m.append(ln);
                m.append(", but it has an input struct. Level3 modules cannot have an input struct");
                return Err(m);
            }
        }
        if !self.config_fn_is_pub {
            return Err(
                concat3(
                    "Config function in module ",
                    self.name.as_str(),
                    " is not public. Ensure your config function starts with `pub fn config(...)`",
                ),
            );
        }
        match self.verify_use_dependencies(level0_code) {
            Ok(()) => {},
            Err(m) => {
                return Err(m);
            },
        }
        if level == ModuleLevel::Level3 {
            match self.assert_level_3_and_set_depends_on() {
                Ok(()) => {},
                Err(m) => {
                    return Err(m);
                },
            }
        }
        Ok(())
    }

    /// For a level-3 module, records the level-2 module it depends on (see
    /// `level3_dependency`).
    pub fn assert_level_3_and_set_depends_on(&mut self) -> (r: Result<(), String>)
        requires
            old(self).level == ModuleLevel::Level3,
        ensures
            same_but_signature(*final(self), *old(self)),
            final(self).compile_dependencies == old(self).compile_dependencies,
            final(self).level == old(self).level,
            match level3_dependency(
                old(self).name@,
                deps_view(old(self).compile_dependencies@),
                old(self).config_fn_signature_inputs@.len(),
            ) {
                Ok(d) => r is Ok && opt_string_view(final(self).lvl3_module_depends_on) == Some(d),
                Err(msg) => r matches Err(m) && m@ == msg,
            },
    {
        let ghost deps = deps_view(self.compile_dependencies@);
        let n = self.compile_dependencies.len();
        let mut i: usize = 0;
        let mut last: Option<String> = None;
        assert(deps.subrange(0, 0) =~= Seq::<DepV>::empty());
        while i < n
            invariant
                n == self.compile_dependencies@.len(),
                deps == deps_view(self.compile_dependencies@),
                0 <= i <= n,
                first_lib(deps, 0) == first_lib(deps, i as int),
                opt_string_view(last) == last_mod(deps.subrange(0, i as int)),
            decreases n - i,
        {
            assert(deps.subrange(0, i + 1).drop_last() =~= deps.subrange(0, i as int));
            match &self.compile_dependencies[i] {
                DependencyTypeName::Mod1Or2(x) => {
                    last = Some(x.clone());
                },
                DependencyTypeName::Library(x) => {
                    let mut m = concat3("Detected ", self.name.as_str(), " as ");
                    m.append("Level3");
                    m.append(", but found it attempting to use ");
                    m.append(x.as_str());
                    m.append(
                        " in its config function. Only Level2 modules are allowed to use Level1 functionality in the config function",
                    );
                    return Err(m);
                },
            }
            i = i + 1;
        }
        assert(deps.subrange(0, n as int) =~= deps);
        if self.config_fn_signature_inputs.len() != 1 {
            let mut m = concat3("Detected ", self.name.as_str(), " as ");
            m.append("Level3");
            m.append(", but its config function signature has more than 1 input");
            return Err(m);
        }
        let s = match self.level3_get_depends_on(last) {
            Ok(s) => s,
            Err(m) => {
                return Err(m);
            },
        };
        self.lvl3_module_depends_on = Some(s);
        Ok(())
    }

    /// The level-2 dependency, when there is one.
    pub fn level3_get_depends_on(&self, opt: Option<String>) -> (r: Result<String, String>)
        ensures
            match opt {
                Some(s) => r matches Ok(x) && x@ == s@,
                None => r matches Err(m) && m@ == "Detected "@ + self.name@ + " as "@ + level_name(
                    self.level,
                ) + ", but failed to find a level2 module's input in the config function signature"@,
            },
    {
        match opt {
            Some(s) => Ok(s),
            None => {
                let mut m = concat3("Detected ", self.name.as_str(), " as ");
                m.append(self.level.name());
                m.append(", but failed to find a level2 module's input in the config function signature");
                Err(m)
            },
        }
    }

    /// Checks the outputs of a level-3 module: no constants, and only outputs of the level-2
    /// module it depends on; the error names the first output that breaks this.
    pub fn verify_outputs_shape(&self) -> (r: Result<(), String>)
        ensures
            match outputs_problem(
                self.level,
                self.name@,
                opt_string_view(self.lvl3_module_depends_on),
                outputs_view(self.outputs@),
                0,
            ) {
                Some(msg) => r matches Err(m) && m@ == msg,
                None => r is Ok,
            },
    {
        if self.level != ModuleLevel::Level3 {
            return Ok(());
        }
        let l2 = match &self.lvl3_module_depends_on {
            Some(s) => s.clone(),
            None => String::new(),
        };
        proof {
            reveal_strlit("");
        }
        let n = self.outputs.len();
        let mut i: usize = 0;
        while i < n
            invariant
                n == self.outputs@.len(),
                self.level == ModuleLevel::Level3,
                l2@ == (match opt_string_view(self.lvl3_module_depends_on) {
                    Some(d) => d,
                    None => Seq::empty(),
                }),
                0 <= i <= n,
                outputs_problem(
                    self.level,
                    self.name@,
                    opt_string_view(self.lvl3_module_depends_on),
                    outputs_view(self.outputs@),
                    0,
                ) == outputs_problem(
                    self.level,
                    self.name@,
                    opt_string_view(self.lvl3_module_depends_on),
                    outputs_view(self.outputs@),
                    i as int,
                ),
            decreases n - i,
        {
            match &self.outputs[i] {
                OutputType::SpecificConst(_, _) => {
                    let mut m = concat3("Detected module ", self.name.as_str(), " as ");
                    m.append("Level3");
                    m.append(
                        ", but in its `mod outputs` section there are const statements. Only Level2 modules can specify const statements in its outputs section",
                    );
                    return Err(m);
                },
                OutputType::AllFromModule(mod_name) | OutputType::SpecificFromModule(mod_name, _) => {
                    if !str_eq(mod_name.as_str(), l2.as_str()) {
                        let mut m = concat3("Detected module ", self.name.as_str(), " as ");
                        m.append("Level3");
                        m.append(
                            ". Its `mod outputs` section contains use statements from other modules. Expected to only see use statements from Level2 module ",
                        );
                        m.append(l2.as_str());
                        m.append(", but found ");
                        m.append(mod_name.as_str());
                        m.append(
                            ". Level3 modules can only specify outputs that exist in the corresponding Level2 module",
                        );
                        return Err(m);
                    }
                },
            }
            i = i + 1;
        }
        Ok(())
    }
}

pub enum OutputV {
    All(Seq<char>),
    Specific(Seq<char>, Seq<char>),
    Const(Seq<char>, Seq<char>),
}

pub open spec fn outputs_view(v: Seq<OutputType>) -> Seq<OutputV> {
    Seq::new(
        v.len(),
        |i: int|
            match v[i] {
                OutputType::AllFromModule(m) => OutputV::All(m@),
                OutputType::SpecificFromModule(m, k) => OutputV::Specific(m@, k@),
                OutputType::SpecificConst(k, val) => OutputV::Const(k@, val@),
            },
    )
}

/// The message for the first output from index `i` on that a level-3 module may not
/// declare, if any; other levels are not checked.
pub open spec fn outputs_problem(
    level: ModuleLevel,
    name: Seq<char>,
    depends_on: Option<Seq<char>>,
    outputs: Seq<OutputV>,
    i: int,
) -> Option<Seq<char>>
    decreases outputs.len() - i,
{
    if level != ModuleLevel::Level3 || i < 0 || i >= outputs.len() {
        None
    } else {
        let l2 = match depends_on {
            Some(d) => d,
            None => Seq::empty(),
        };
        match outputs[i] {
            OutputV::Const(_, _) => Some(
                "Detected module "@ + name + " as "@ + "Level3"@
                    + ", but in its `mod outputs` section there are const statements. Only Level2 modules can specify const statements in its outputs section"@,
            ),
            OutputV::All(m) => if m != l2 {
                Some(outputs_mismatch_message(name, l2, m))
            } else {
                outputs_problem(level, name, depends_on, outputs, i + 1)
            },
            OutputV::Specific(m, _) => if m != l2 {
                Some(outputs_mismatch_message(name, l2, m))
            } else {
                outputs_problem(level, name, depends_on, outputs, i + 1)
            },
        }
    }
}

pub open spec fn outputs_mismatch_message(name: Seq<char>, l2: Seq<char>, m: Seq<char>) -> Seq<
    char,
> {
    "Detected module "@ + name + " as "@ + "Level3"@
        + ". Its `mod outputs` section contains use statements from other modules. Expected to only see use statements from Level2 module "@
        + l2 + ", but found "@ + m
        + ". Level3 modules can only specify outputs that exist in the corresponding Level2 module"@
}

/// Whether `v` holds a string with the characters of `s`.
pub(crate) fn contains_string(v: &Vec<String>, s: &str) -> (r: bool)
    ensures
        r == strings_view(v@).contains(s@),
{
    let n = v.len();
    let mut i: usize = 0;
    while i < n
        invariant
            n == v@.len(),
            0 <= i <= n,
            forall|j: int| 0 <= j < i ==> strings_view(v@)[j] != s@,
        decreases n - i,
    {
        if str_eq(v[i].as_str(), s) {
            assert(strings_view(v@)[i as int] == s@);
            return true;
        }
        i = i + 1;
    }
    false
}

fn any_contains_exec(v: &Vec<String>, pat: &str) -> (r: bool)
    ensures
        r == any_contains(strings_view(v@), pat@),
{
    let n = v.len();
    let mut i: usize = 0;
    while i < n
        invariant
            n == v@.len(),
            0 <= i <= n,
            forall|j: int| 0 <= j < i ==> !seq_contains_run(#[trigger] strings_view(v@)[j], pat@),
        decreases n - i,
    {
        if contains_run(v[i].as_str(), pat) {
            assert(seq_contains_run(strings_view(v@)[i as int], pat@));
            return true;
        }
        i = i + 1;
    }
    false
}


// ---------------------------------------------------------------- output dependencies

pub open spec fn dep_entry_view(r: Result<Vec<String>, String>) -> Result<Seq<Seq<char>>, Seq<char>> {
    match r {
        Ok(v) => Ok(strings_view(v@)),
        Err(s) => Err(s@),
    }
}

pub open spec fn dep_map_view(v: Seq<(String, Result<Vec<String>, String>)>) -> Seq<
    (Seq<char>, Result<Seq<Seq<char>>, Seq<char>>),
> {
    Seq::new(v.len(), |i: int| (v[i].0@, dep_entry_view(v[i].1)))
}

/// The fields wanted of a module after one more is asked for: a module not yet present
/// wants that field; `*` replaces a list that does not hold it yet, and once a list holds
/// `*` nothing changes it; an entry that records a rename is left alone.
pub open spec fn with_dep_field(
    m: Seq<(Seq<char>, Result<Seq<Seq<char>>, Seq<char>>)>,
    k: Seq<char>,
    f: Seq<char>,
) -> Seq<(Seq<char>, Result<Seq<Seq<char>>, Seq<char>>)> {
    match assoc_get(m, k) {
        Some(Ok(v)) => if v.contains("*"@) {
            m
        } else if f == "*"@ {
            assoc_put(m, k, Ok(seq!["*"@]))
        } else {
            assoc_put(m, k, Ok(v.push(f)))
        },
        Some(Err(_)) => m,
        None => assoc_put(m, k, Ok(seq![f])),
    }
}

/// What `set_dep` makes of the map: a rename is recorded under the new name, then the field
/// is added for the module.
pub open spec fn with_dep(
    m: Seq<(Seq<char>, Result<Seq<Seq<char>>, Seq<char>>)>,
    k: Seq<char>,
    renamed: Seq<char>,
    f: Seq<char>,
) -> Seq<(Seq<char>, Result<Seq<Seq<char>>, Seq<char>>)> {
    let m1 = if k != renamed {
        assoc_put(m, renamed, Err(k))
    } else {
        m
    };
    with_dep_field(m1, k, f)
}

proof fn lemma_assoc_get_at<V>(m: Seq<(Seq<char>, V)>, k: Seq<char>, i: int)
    requires
        0 <= i <= m.len(),
        forall|j: int| 0 <= j < i ==> m[j].0 != k,
        i < m.len() ==> m[i].0 == k,
    ensures
        i < m.len() ==> assoc_get(m, k) == Some(m[i].1),
        i == m.len() ==> assoc_get(m, k) is None,
    decreases i,
{
    if i > 0 {
        lemma_assoc_get_at(m.subrange(1, m.len() as int), k, i - 1);
    }
}

fn find_dep(deps: &Vec<(String, Result<Vec<String>, String>)>, k: &str) -> (i: usize)
    ensures
        i <= deps@.len(),
        forall|j: int| 0 <= j < i ==> deps@[j].0@ != k@,
        i < deps@.len() ==> deps@[i as int].0@ == k@,
{
    let n = deps.len();
    let mut i: usize = 0;
    while i < n
        invariant
            n == deps@.len(),
            0 <= i <= n,
            forall|j: int| 0 <= j < i ==> deps@[j].0@ != k@,
        decreases n - i,
    {
        if str_eq(deps[i].0.as_str(), k) {
            return i;
        }
        i = i + 1;
    }
    i
}

/// Puts `(k, val)` into the map, replacing the binding of `k` if there is one.
fn put_dep(
    deps: &mut Vec<(String, Result<Vec<String>, String>)>,
    k: String,
    val: Result<Vec<String>, String>,
)
    ensures
        dep_map_view(final(deps)@) == assoc_put(dep_map_view(old(deps)@), k@, dep_entry_view(val)),
{
    let i = find_dep(deps, k.as_str());
    let ghost mv = dep_map_view(deps@);
    let ghost e = (k@, dep_entry_view(val));
    proof {
        lemma_assoc_put_at(mv, k@, dep_entry_view(val), i as int);
    }
    if i < deps.len() {
        deps.set(i, (k, val));
        assert(dep_map_view(deps@) =~= mv.update(i as int, e));
    } else {
        deps.push((k, val));
        assert(dep_map_view(deps@) =~= mv.push(e));
    }
}

/// Adds a wanted field for the module `dep_name` (see `with_dep_field`).
pub fn set_dep_inner(
    deps: &mut Vec<(String, Result<Vec<String>, String>)>,
    dep_name: &String,
    field: String,
)
    ensures
        dep_map_view(final(deps)@) == with_dep_field(dep_map_view(old(deps)@), dep_name@, field@),
{
    let ghost mv = dep_map_view(deps@);
    let i = find_dep(deps, dep_name.as_str());
    proof {
        lemma_assoc_get_at(mv, dep_name@, i as int);
    }
    if i == deps.len() {
        let mut v: Vec<String> = Vec::new();
        v.push(field);
        put_dep(deps, dep_name.clone(), Ok(v));
        assert(strings_view(v@) =~= seq![field@]);
        return;
    }
    let (has_star, is_ok) = match &deps[i].1 {
        Ok(v) => (contains_string(v, "*"), true),
        Err(_) => (false, false),
    };
    if !is_ok || has_star {
        return;
    }
    let mut v = match &deps[i].1 {
        Ok(v) => clone_strings(v),
        Err(_) => Vec::new(),
    };
    let ghost old_v = strings_view(v@);
    if str_eq(field.as_str(), "*") {
        let mut star: Vec<String> = Vec::new();
        star.push(field);
        assert(strings_view(star@) =~= seq!["*"@]);
        put_dep(deps, dep_name.clone(), Ok(star));
    } else {
        v.push(field);
        assert(strings_view(v@) =~= old_v.push(field@));
        put_dep(deps, dep_name.clone(), Ok(v));
    }
}

/// Records that `renamed` names the module `dep_name` when the two differ, then adds a
/// wanted field for the module (see `with_dep`).
pub fn set_dep(
    deps: &mut Vec<(String, Result<Vec<String>, String>)>,
    dep_name: &String,
    renamed: &String,
    field: String,
)
    ensures
        dep_map_view(final(deps)@) == with_dep(
            dep_map_view(old(deps)@),
            dep_name@,
            renamed@,
            field@,
        ),
{
    if !str_eq(dep_name.as_str(), renamed.as_str()) {
        put_dep(deps, renamed.clone(), Err(dep_name.clone()));
    }
    set_dep_inner(deps, dep_name, field);
}

pub(crate) fn clone_strings(v: &Vec<String>) -> (r: Vec<String>)
    ensures
        strings_view(r@) == strings_view(v@),
{
    let mut out: Vec<String> = Vec::new();
    let n = v.len();
    let mut i: usize = 0;
    while i < n
        invariant
            n == v@.len(),
            0 <= i <= n,
            out@.len() == i,
            strings_view(out@) == strings_view(v@).subrange(0, i as int),
        decreases n - i,
    {
        let ghost prev = out@;
        let s = v[i].clone();
        out.push(s);
        assert forall|j: int| 0 <= j <= i implies strings_view(out@)[j] == strings_view(v@)[j] by {
            if j < i {
                assert(strings_view(prev)[j] == strings_view(v@).subrange(0, i as int)[j]);
            }
        }
        assert(strings_view(out@) =~= strings_view(v@).subrange(0, i + 1));
        i = i + 1;
    }
    assert(strings_view(v@).subrange(0, n as int) =~= strings_view(v@));
    out
}

/// Once a module's wanted fields hold `*`, adding any field leaves the map as it is.
pub proof fn law_wildcard_absorbs(
    m: Seq<(Seq<char>, Result<Seq<Seq<char>>, Seq<char>>)>,
    k: Seq<char>,
    f: Seq<char>,
)
    requires
        assoc_get(m, k) matches Some(Ok(v)) && v.contains("*"@),
    ensures
        with_dep_field(m, k, f) == m,
{
}

/// Whether every wanted-field list that holds `*` holds nothing else.
pub open spec fn wildcard_alone(m: Seq<(Seq<char>, Result<Seq<Seq<char>>, Seq<char>>)>) -> bool {
    forall|i: int|
        0 <= i < m.len() ==> (#[trigger] m[i].1 matches Ok(v) ==> (v.contains("*"@) ==> v
            == seq!["*"@]))
}

/// Adding fields keeps `*` alone in a list: once a module is wanted whole, its list is
/// exactly `*`.
pub proof fn law_wildcard_stays_alone(
    m: Seq<(Seq<char>, Result<Seq<Seq<char>>, Seq<char>>)>,
    k: Seq<char>,
    f: Seq<char>,
)
    requires
        wildcard_alone(m),
    ensures
        wildcard_alone(with_dep_field(m, k, f)),
{
    let r = with_dep_field(m, k, f);
    match assoc_get(m, k) {
        Some(Ok(v)) => {
            if !v.contains("*"@) {
                let nv: Seq<Seq<char>> = if f == "*"@ { seq!["*"@] } else { v.push(f) };
                lemma_assoc_put_elems(m, k, Ok::<Seq<Seq<char>>, Seq<char>>(nv));
                if f != "*"@ {
                    assert(!nv.contains("*"@)) by {
                        if nv.contains("*"@) {
                            let j = choose|j: int| 0 <= j < nv.len() && nv[j] == "*"@;
                            if j < v.len() {
                                assert(v[j] == nv[j]);
                            }
                        }
                    }
                }
                assert(r == assoc_put(m, k, Ok::<Seq<Seq<char>>, Seq<char>>(nv)));
                assert forall|i: int| 0 <= i < r.len() implies (#[trigger] r[i].1 matches Ok(
                    w,
                ) ==> (w.contains("*"@) ==> w == seq!["*"@])) by {
                    if i < m.len() && r[i] == m[i] {
                        assert(m[i].1 matches Ok(w) ==> (w.contains("*"@) ==> w == seq!["*"@]));
                    } else {
                        assert(r[i] == (k, Ok::<Seq<Seq<char>>, Seq<char>>(nv)));
                    }
                }
            }
        },
        Some(Err(_)) => {},
        None => {
            lemma_assoc_put_elems(m, k, Ok::<Seq<Seq<char>>, Seq<char>>(seq![f]));
            assert forall|i: int| 0 <= i < r.len() implies (#[trigger] r[i].1 matches Ok(
                w,
            ) ==> (w.contains("*"@) ==> w == seq!["*"@])) by {
                if i < m.len() && r[i] == m[i] {
                } else {
                    if seq![f].contains("*"@) {
                        assert(seq![f][0] == "*"@);
                    }
                }
            }
        },
    }
}

/// Asking for `*` leaves the module wanting exactly `*`, unless its entry records a rename.
pub proof fn law_wildcard_overrides(
    m: Seq<(Seq<char>, Result<Seq<Seq<char>>, Seq<char>>)>,
    k: Seq<char>,
)
    requires
        wildcard_alone(m),
        !(assoc_get(m, k) is Some && assoc_get(m, k)->Some_0 is Err),
    ensures
        assoc_get(with_dep_field(m, k, "*"@), k) == Some(
            Ok::<Seq<Seq<char>>, Seq<char>>(seq!["*"@]),
        ),
{
    lemma_assoc_put_get(m, k, Ok::<Seq<Seq<char>>, Seq<char>>(seq!["*"@]));
    match assoc_get(m, k) {
        Some(Ok(v)) => {
            if v.contains("*"@) {
                let i = lemma_assoc_get_some(m, k);
                assert(m[i].1 matches Ok(w) ==> (w.contains("*"@) ==> w == seq!["*"@]));
            }
        },
        _ => {},
    }
}

/// Each binding of `assoc_put(m, k, v)` is the one at its place in `m`, or `(k, v)`.
proof fn lemma_assoc_put_elems<V>(m: Seq<(Seq<char>, V)>, k: Seq<char>, v: V)
    ensures
        forall|i: int|
            0 <= i < assoc_put(m, k, v).len() ==> (#[trigger] assoc_put(m, k, v)[i] == (k, v) || (i
                < m.len() && assoc_put(m, k, v)[i] == m[i])),
    decreases m.len(),
{
    if m.len() > 0 && m[0].0 != k {
        let rest = m.subrange(1, m.len() as int);
        lemma_assoc_put_elems(rest, k, v);
        let r = assoc_put(m, k, v);
        assert forall|i: int| 0 <= i < r.len() implies (r[i] == (k, v) || (i < m.len() && r[i]
            == m[i])) by {
            let t = assoc_put(rest, k, v);
            assert(r == seq![m[0]] + t);
            if i > 0 {
                assert(0 <= i - 1 < t.len());
                assert(r[i] == t[i - 1]);
                assert(t[i - 1] == (k, v) || (i - 1 < rest.len() && t[i - 1] == rest[i - 1]));
                if i - 1 < rest.len() {
                    assert(rest[i - 1] == m[i]);
                }
            } else {
                assert(r[0] == m[0]);
            }
        }
    }
}

/// Where `assoc_get(m, k)` finds a value, that value is bound to `k` at some place of `m`.
proof fn lemma_assoc_get_some<V>(m: Seq<(Seq<char>, V)>, k: Seq<char>) -> (i: int)
    requires
        assoc_get(m, k) is Some,
    ensures
        0 <= i < m.len(),
        m[i].0 == k,
        Some(m[i].1) == assoc_get(m, k),
    decreases m.len(),
{
    if m[0].0 == k {
        0
    } else {
        let j = lemma_assoc_get_some(m.subrange(1, m.len() as int), k);
        j + 1
    }
}

proof fn lemma_assoc_put_get_other<V>(m: Seq<(Seq<char>, V)>, k: Seq<char>, v: V, k2: Seq<char>)
    requires
        k2 != k,
    ensures
        assoc_get(assoc_put(m, k, v), k2) == assoc_get(m, k2),
    decreases m.len(),
{
    let r = assoc_put(m, k, v);
    if m.len() == 0 {
        assert(r[0].0 == k);
        assert(r.subrange(1, r.len() as int) =~= Seq::<(Seq<char>, V)>::empty());
        assert(assoc_get(r, k2) == assoc_get(r.subrange(1, r.len() as int), k2));
    } else if m[0].0 == k {
        assert(r[0].0 == k);
        assert(r.subrange(1, r.len() as int) =~= m.subrange(1, m.len() as int));
        assert(assoc_get(r, k2) == assoc_get(r.subrange(1, r.len() as int), k2));
    } else {
        let rest = m.subrange(1, m.len() as int);
        lemma_assoc_put_get_other(rest, k, v, k2);
        assert(r[0] == m[0]);
        assert(r.subrange(1, r.len() as int) =~= assoc_put(rest, k, v));
    }
}

/// Asking for a field of one module leaves what is wanted of every other module as it was.
pub proof fn law_dep_field_other_keys(
    m: Seq<(Seq<char>, Result<Seq<Seq<char>>, Seq<char>>)>,
    k: Seq<char>,
    f: Seq<char>,
    other: Seq<char>,
)
    requires
        other != k,
    ensures
        assoc_get(with_dep_field(m, k, f), other) == assoc_get(m, other),
{
    match assoc_get(m, k) {
        Some(Ok(v)) => {
            if !v.contains("*"@) {
                let nv: Seq<Seq<char>> = if f == "*"@ { seq!["*"@] } else { v.push(f) };
                lemma_assoc_put_get_other(m, k, Ok::<Seq<Seq<char>>, Seq<char>>(nv), other);
            }
        },
        Some(Err(_)) => {},
        None => {
            lemma_assoc_put_get_other(m, k, Ok::<Seq<Seq<char>>, Seq<char>>(seq![f]), other);
        },
    }
}

proof fn lemma_assoc_put_get<V>(m: Seq<(Seq<char>, V)>, k: Seq<char>, v: V)
    ensures
        assoc_get(assoc_put(m, k, v), k) == Some(v),
    decreases m.len(),
{
    if m.len() > 0 && m[0].0 != k {
        lemma_assoc_put_get(m.subrange(1, m.len() as int), k, v);
        assert((seq![m[0]] + assoc_put(m.subrange(1, m.len() as int), k, v)).subrange(
            1,
            (seq![m[0]] + assoc_put(m.subrange(1, m.len() as int), k, v)).len() as int,
        ) =~= assoc_put(m.subrange(1, m.len() as int), k, v));
    }
}
} // verus!
