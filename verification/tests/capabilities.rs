use hira::capabilities::{
    allowed_files, capability_grants, check_code_write_grant, check_file_writes, check_function_write,
    check_runtime_lines, requested_functions, split_write_key, visit_lvl3_dependency_names,
};
use hira::kv::StrMap;
use hira::level0::{L0RuntimeCreator, SharedOutputEntry};
use hira::module_loading::{DependencyTypeName, HiraModule2, ModuleLevel};
use hira::shared_files::HiraConfig;

fn module(name: &str, deps: Vec<DependencyTypeName>, caps: Vec<(&str, Vec<&str>)>) -> HiraModule2 {
    HiraModule2 {
        name: name.to_string(),
        contents: String::new(),
        config_fn_is_pub: true,
        config_fn_signature_inputs: vec![],
        is_pub: true,
        input_struct_has_default: true,
        input_struct: String::new(),
        level: ModuleLevel::Level2,
        use_dependencies: vec![],
        compile_dependencies: deps,
        lvl3_module_depends_on: None,
        extern_crates: vec![],
        outputs: vec![],
        resolved_outputs: StrMap::new(),
        capability_params: caps
            .into_iter()
            .map(|(k, v)| (k.to_string(), v.into_iter().map(|s| s.to_string()).collect()))
            .collect(),
    }
}

fn grants(v: &[(&str, &str)]) -> Vec<(String, String)> {
    v.iter().map(|(a, b)| (a.to_string(), b.to_string())).collect()
}

#[test]
fn capability_params_are_found_by_name() {
    let m = module("m", vec![], vec![("FILES", vec!["a.txt", "b.txt"])]);
    assert_eq!(m.get_capability_params("FILES"), Some(&vec!["a.txt".to_string(), "b.txt".to_string()]));
    assert_eq!(m.get_capability_params("RUNTIME"), None);
}

#[test]
fn dependencies_are_walked_depth_first() {
    let mut conf = <HiraConfig as Default>::default();
    conf.modules2.push(module(
        "top",
        vec![
            DependencyTypeName::Mod1Or2("left".to_string()),
            DependencyTypeName::Library("L0Core".to_string()),
            DependencyTypeName::Mod1Or2("right".to_string()),
        ],
        vec![("FILES", vec!["top.txt"])],
    ));
    conf.modules2.push(module("left", vec![DependencyTypeName::Mod1Or2("leaf".to_string())], vec![("FILES", vec!["left.txt"])]));
    conf.modules2.push(module("right", vec![], vec![]));
    conf.modules2.push(module("leaf", vec![], vec![("FILES", vec!["leaf.txt", "top.txt"])]));
    let mut user = module("user", vec![], vec![]);
    user.level = ModuleLevel::Level3;
    user.lvl3_module_depends_on = Some("top".to_string());
    let names = visit_lvl3_dependency_names(&conf, &user);
    assert_eq!(names, vec!["top", "left", "leaf", "right"]);

    let g = capability_grants(&conf, &names, "FILES");
    assert_eq!(g, grants(&[("top", "top.txt"), ("left", "left.txt"), ("leaf", "leaf.txt"), ("leaf", "top.txt")]));
    assert_eq!(allowed_files(&g), vec!["top.txt", "left.txt", "leaf.txt"]);

    user.lvl3_module_depends_on = None;
    assert!(visit_lvl3_dependency_names(&conf, &user).is_empty());
}

#[test]
fn runtime_lines_need_a_runtime_grant() {
    let mut runtimer = L0RuntimeCreator::new();
    runtimer.current_module_name = "good".to_string();
    runtimer.add_to_runtime("rt", "a()".to_string());
    assert_eq!(check_runtime_lines(&runtimer, &grants(&[("good", "rt")])), Ok(()));
    runtimer.current_module_name = "bad".to_string();
    runtimer.add_to_runtime("rt", "b()".to_string());
    assert_eq!(
        check_runtime_lines(&runtimer, &grants(&[("good", "rt")])),
        Err("Module 'bad' requested to use runtime rt but no RUNTIME capability was found".to_string())
    );
}

#[test]
fn function_writes_need_grants() {
    let g = grants(&[("m", "fn_global:main"), ("m", "fn_module:heyo")]);
    assert_eq!(check_code_write_grant("m", &g), Ok(()));
    assert_eq!(
        check_code_write_grant("other", &g),
        Err("Module other attempted to write a function, but no CODE_WRITE capability found".to_string())
    );
    assert_eq!(check_function_write("m", "global", "main", &g), Ok(true));
    assert_eq!(check_function_write("m", "module", "heyo", &g), Ok(false));
    assert_eq!(
        check_function_write("m", "module", "main", &g),
        Err("Module m attempted to write global function main but no fn_module:main capability was defined".to_string())
    );
    assert_eq!(split_write_key("global|pub fn main()"), Some(("global".to_string(), "pub fn main()".to_string())));
    assert_eq!(split_write_key("nokey"), None);
}

fn entry(file: &str) -> SharedOutputEntry {
    SharedOutputEntry { filename: file.to_string(), label: "a".to_string(), line: "x".to_string(), unique: false, after: None }
}

#[test]
fn file_writes_need_grants() {
    let allowed = vec!["hello.txt".to_string()];
    assert_eq!(check_file_writes("m", &vec![entry("hello.txt")], &allowed), Ok(()));
    assert_eq!(
        check_file_writes("m", &vec![entry("a.txt"), entry("hello.txt"), entry("you_got_hacked.txt")], &allowed),
        Err("Module 'm' had a dependency that attempted to write file you_got_hacked.txt, but allowed files are only {\"hello.txt\"}".to_string())
    );
}

#[test]
fn read_requests_are_collected() {
    assert_eq!(
        requested_functions(&grants(&[("m", "fn:hello_world"), ("n", "fn:other"), ("o", "fn:hello_world")])),
        Ok(vec!["hello_world".to_string(), "other".to_string()])
    );
    assert_eq!(
        requested_functions(&grants(&[("m", "struct:x")])),
        Err("Module m requested READ_CODE capability of an unknown type 'struct'".to_string())
    );
    assert_eq!(
        requested_functions(&grants(&[("m", "hello")])),
        Err("Module m requested READ_CODE capability with an unknown syntax 'hello'\nExpected to find something like 'fn:function_name'".to_string())
    );
}
