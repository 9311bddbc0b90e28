use hira::kv::StrMap;
use hira::module_driver::{get_all_extern_crates, should_compile};
use hira::module_loading::{HiraModule2, ModuleLevel};
use hira::shared_files::HiraConfig;

fn module(name: &str, externs: Vec<&str>) -> HiraModule2 {
    HiraModule2 {
        name: name.to_string(),
        contents: String::new(),
        config_fn_is_pub: true,
        config_fn_signature_inputs: vec![],
        is_pub: true,
        input_struct_has_default: true,
        input_struct: String::new(),
        level: ModuleLevel::Level2,
        use_dependencies: vec![],
        compile_dependencies: vec![],
        lvl3_module_depends_on: None,
        extern_crates: externs.into_iter().map(|s| s.to_string()).collect(),
        outputs: vec![],
        resolved_outputs: StrMap::new(),
        capability_params: vec![],
    }
}

#[test]
fn quick_checks_do_not_compile() {
    assert!(!should_compile(Some("short")));
    assert!(should_compile(Some("full")));
    assert!(should_compile(None));
}

#[test]
fn modules_are_kept_by_name() {
    let mut conf = <HiraConfig as Default>::default();
    conf.put_module2(module("a", vec![]));
    conf.put_module2(module("b", vec![]));
    conf.put_module2(module("a", vec!["serde"]));
    assert_eq!(conf.modules2.len(), 2);
    assert_eq!(conf.modules2[0].name, "a");
    assert_eq!(conf.modules2[0].extern_crates, vec!["serde".to_string()]);
    assert_eq!(conf.modules2[1].name, "b");
}

#[test]
fn extern_crates_are_gathered_once() {
    let mut conf = <HiraConfig as Default>::default();
    conf.put_module2(module("dep", vec!["s3", "iam", "s3"]));
    let mut user = module("user", vec!["iam", "lambda"]);
    user.level = ModuleLevel::Level3;
    user.lvl3_module_depends_on = Some("dep".to_string());
    assert_eq!(get_all_extern_crates(&conf, &user), vec!["iam", "lambda", "s3"]);
}
