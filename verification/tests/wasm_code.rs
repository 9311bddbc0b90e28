use hira::module_loading::ModuleLevel;
use hira::module_scripting::{check_module_script, script_outcome};
use hira::wasm_code::{lvl3_code_text, wasm_code_lvl3, DependencyConfig, DependencyType};

fn lvl2() -> DependencyConfig {
    DependencyConfig {
        name: "lvl2mod".to_string(),
        level: ModuleLevel::Level2,
        deps: vec![
            DependencyType::Library("L0Core".to_string()),
            DependencyType::Mod1or2(DependencyConfig { name: "other".to_string(), level: ModuleLevel::Level2, deps: vec![] }),
        ],
    }
}

#[test]
fn calling_code_configures_each_dependency() {
    assert_eq!(
        lvl2().config_calling_code("conf_0"),
        "library_obj . set_current_module (\"lvl2mod\") ; let mut conf_lvl2mod_1 = other :: Input :: default () ; lvl2mod :: config (& mut conf_0 , & mut library_obj . l0_core , & mut conf_lvl2mod_1 ,) ; other :: config (& mut conf_lvl2mod_1 ,) ;"
    );
    let leaf = DependencyConfig { name: "leaf".to_string(), level: ModuleLevel::Level2, deps: vec![] };
    assert_eq!(leaf.config_calling_code("c"), "leaf :: config (& mut c ,) ;");
}

#[test]
fn level3_code_holds_the_module_and_entry_point() {
    let dep = DependencyConfig { name: "leaf".to_string(), level: ModuleLevel::Level2, deps: vec![] };
    let text = lvl3_code_text("mymod", "pub mod mymod { }", &dep, "dependencies_mymod", false);
    assert!(text.starts_with(
        "extern crate hira_base ; extern crate dependencies_mymod ; use hira_base :: LibraryObj ; use dependencies_mymod :: * ; pub mod mymod { } # [no_mangle] pub fn wasm_main (library_obj : & mut LibraryObj) { let mut conf_0 = leaf :: Input :: default () ; mymod :: config (& mut conf_0) ; leaf :: config (& mut conf_0 ,) ; } extern \"C\" {"
    ));
    assert!(text.ends_with("set_entrypoint_data (ptr , len as _) ; } 0 }"));
    let web = lvl3_code_text("mymod", "", &dep, "d", true);
    assert!(web.contains("use d :: * ; fn create_js_obj"));
    assert!(web.contains("mymod :: config (& mut conf_0) ; leaf :: config (& mut conf_0 ,) ; match serde_json"));
}

#[test]
fn level3_code_from_source() {
    let dep = DependencyConfig { name: "leaf".to_string(), level: ModuleLevel::Level2, deps: vec![] };
    let text = wasm_code_lvl3("mymod", "pub mod mymod {}", &dep, "d", false).unwrap();
    assert!(text.contains("use d :: * ; pub mod mymod { } # [no_mangle]"));
    let err = wasm_code_lvl3("mymod", "pub mod mymod {", &dep, "d", false).unwrap_err();
    assert!(err.starts_with("Failed to parse lvl3 module def as tokens\n"));
}

#[test]
fn module_scripts_are_compiled_and_checked() {
    assert_eq!(check_module_script("m", "func_macro", "fn func_macro(x) { x }"), Ok(()));
    assert_eq!(
        check_module_script("m", "func_macro", "fn other(x) { x }"),
        Err("hira::module 'm' is missing a fn func_macro(x) {} function.".to_string())
    );
    assert_eq!(
        check_module_script("m", "func_macro", "fn func_macro(x, y) { x }"),
        Err("fn func_macro() {} was found but it takes 2 parameters, expected 1".to_string())
    );
    let e = check_module_script("m", "f", "fn f(x) {").unwrap_err();
    assert!(e.starts_with("Failed to parse module 'm' as rhai script. "));
    assert_eq!(
        script_outcome("m", "f", &Err("bad".to_string())),
        Err("Failed to parse module 'm' as rhai script. bad".to_string())
    );
}

use hira::kv::StrMap;
use hira::module_loading::{DependencyTypeName, HiraModule2};
use hira::shared_files::HiraConfig;
use hira::wasm_code::{fill_dependency_config, get_wasm_code_to_compile2};

fn module(name: &str, contents: &str, deps: Vec<DependencyTypeName>) -> HiraModule2 {
    HiraModule2 {
        name: name.to_string(),
        contents: contents.to_string(),
        config_fn_is_pub: true,
        config_fn_signature_inputs: vec![],
        is_pub: true,
        input_struct_has_default: true,
        input_struct: String::new(),
        level: ModuleLevel::Level2,
        use_dependencies: vec![],
        compile_dependencies: deps,
        lvl3_module_depends_on: None,
        extern_crates: vec![],
        outputs: vec![],
        resolved_outputs: StrMap::new(),
        capability_params: vec![],
    }
}

fn conf() -> HiraConfig {
    let mut c = <HiraConfig as Default>::default();
    c.hira_base_code = "base".to_string();
    c.modules2.push(module(
        "lvl2mod",
        "pub mod lvl2mod {}",
        vec![DependencyTypeName::Library("L0Core".to_string()), DependencyTypeName::Mod1Or2("other".to_string())],
    ));
    c.modules2.push(module("other", "pub mod other {}", vec![]));
    c
}

#[test]
fn dependencies_are_gathered() {
    let c = conf();
    let mut contents = vec![];
    let d = fill_dependency_config(&c, "lvl2mod", c.modules2.len(), &mut contents).unwrap();
    assert_eq!(d.config_calling_code("conf_0"), lvl2().config_calling_code("conf_0"));
    assert_eq!(contents, vec!["pub mod lvl2mod { }", "pub mod other { }"]);
    let mut contents = vec![];
    assert_eq!(
        fill_dependency_config(&c, "missing", 2, &mut contents).unwrap_err(),
        "Failed to find module missing, but this module has not been loaded yet"
    );
}

#[test]
fn crates_of_a_level3_module() {
    let c = conf();
    let mut m = module("mymod", "pub mod mymod {}", vec![]);
    m.lvl3_module_depends_on = Some("lvl2mod".to_string());
    let crates = get_wasm_code_to_compile2(&c, &m, false).unwrap();
    assert_eq!(crates[0], ("hira_base".to_string(), "base".to_string()));
    assert_eq!(crates[1].0, "dependencies_mymod");
    assert_eq!(crates[1].1, "extern crate hira_base ; use hira_base :: * ; pub mod lvl2mod { } pub mod other { }");
    assert_eq!(crates[2].0, "mymod");
    assert!(crates[2].1.contains("extern crate dependencies_mymod ;"));
    m.lvl3_module_depends_on = None;
    assert_eq!(
        get_wasm_code_to_compile2(&c, &m, false).unwrap_err(),
        "Detected mymod as Level2, but failed to find a level2 module's input in the config function signature"
    );
}
