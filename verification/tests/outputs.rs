use hira::kv::StrMap;
use hira::level0::L0Core;
use hira::module_loading::{HiraModule2, ModuleLevel, OutputType};
use hira::shared_files::HiraConfig;

fn module(name: &str, level: ModuleLevel, outputs: Vec<OutputType>) -> HiraModule2 {
    HiraModule2 {
        name: name.to_string(),
        contents: String::new(),
        config_fn_is_pub: true,
        config_fn_signature_inputs: vec![],
        is_pub: true,
        input_struct_has_default: true,
        input_struct: String::new(),
        level,
        use_dependencies: vec![],
        compile_dependencies: vec![],
        lvl3_module_depends_on: None,
        extern_crates: vec![],
        outputs,
        resolved_outputs: StrMap::new(),
        capability_params: vec![],
    }
}

fn konst(k: &str, v: &str) -> OutputType {
    OutputType::SpecificConst(k.to_string(), v.to_string())
}

fn setup(lvl2_outputs: Vec<OutputType>, lvl3_outputs: Vec<OutputType>) -> (HiraConfig, HiraModule2, L0Core) {
    let mut conf = <HiraConfig as Default>::default();
    conf.modules2.push(module("lvl2mod", ModuleLevel::Level2, lvl2_outputs));
    let mut user = module("mylevel3mod", ModuleLevel::Level3, lvl3_outputs);
    user.lvl3_module_depends_on = Some("lvl2mod".to_string());
    let mut core = L0Core::new();
    core.current_module_name = "lvl2mod".to_string();
    (conf, user, core)
}

#[test]
fn set_outputs_reach_the_level3_module() {
    let (conf, mut user, mut core) = setup(
        vec![konst("REGION", "")],
        vec![OutputType::AllFromModule("lvl2mod".to_string())],
    );
    core.set_output("REGION", "us-east-2");
    assert_eq!(core.resolve_outputs(&conf, &mut user), Ok(()));
    assert_eq!(user.resolved_outputs.get("REGION"), Some("us-east-2".to_string()));
}

#[test]
fn outputs_must_be_declared() {
    let (conf, mut user, mut core) = setup(
        vec![konst("REGION", "")],
        vec![OutputType::AllFromModule("lvl2mod".to_string())],
    );
    core.set_output("NOT_DEFINED", "us-east-2");
    let err = core.resolve_outputs(&conf, &mut user).expect_err("Expected compilation to fail due to NOT_DEFINED");
    assert!(err.contains("this module did not specify such an output"));
    assert_eq!(
        err,
        "Detected output 'NOT_DEFINED' from intermediate module lvl2mod but this module did not specify such an output"
    );
    assert_eq!(user.resolved_outputs.get("REGION"), None);
}

#[test]
fn outputs_get_defaulted_if_not_set() {
    let (conf, mut user, mut core) = setup(
        vec![konst("REGION", "eu-west-1")],
        vec![OutputType::AllFromModule("lvl2mod".to_string())],
    );
    assert_eq!(core.resolve_outputs(&conf, &mut user), Ok(()));
    assert_eq!(user.resolved_outputs.get("REGION"), Some("eu-west-1".to_string()));
}

#[test]
fn defaults_never_override_set_outputs() {
    let (conf, _, mut core) = setup(vec![konst("REGION", "eu-west-1")], vec![]);
    core.set_output("REGION", "us-east-2");
    core.set_defaults_recursively(&conf, "lvl2mod");
    assert_eq!(core.remove_specific_output("lvl2mod", "REGION"), Some("us-east-2".to_string()));
}

#[test]
fn outputs_not_taken_if_not_named() {
    let (conf, mut user, mut core) = setup(
        vec![konst("REGION", "eu-west-1"), konst("OTHER_CONST", "x")],
        vec![OutputType::SpecificFromModule("lvl2mod".to_string(), "REGION".to_string())],
    );
    assert_eq!(core.resolve_outputs(&conf, &mut user), Ok(()));
    assert_eq!(user.resolved_outputs.get("REGION"), Some("eu-west-1".to_string()));
    assert_eq!(user.resolved_outputs.get("OTHER_CONST"), None);
}

#[test]
fn outputs_of_unknown_modules_are_refused() {
    let (conf, mut user, mut core) = setup(vec![], vec![]);
    core.current_module_name = "ghost".to_string();
    core.set_output("X", "1");
    assert_eq!(
        core.resolve_outputs(&conf, &mut user),
        Err("Detected outputs from intermediate module ghost but this module doesn't exist".to_string())
    );
}

#[test]
fn level3_module_needs_its_level2_module() {
    let (conf, mut user, mut core) = setup(vec![], vec![]);
    user.lvl3_module_depends_on = None;
    assert_eq!(
        core.resolve_outputs(&conf, &mut user),
        Err("Detected mylevel3mod as Level3, but failed to find a level2 module's input in the config function signature".to_string())
    );
}

#[test]
fn declared_outputs_are_looked_up() {
    let (conf, _, _) = setup(vec![konst("REGION", "")], vec![]);
    let wraps = module("wrapper", ModuleLevel::Level2, vec![OutputType::AllFromModule("lvl2mod".to_string())]);
    assert!(wraps.has_output("REGION", &conf));
    assert!(!wraps.has_output("OTHER", &conf));
}
