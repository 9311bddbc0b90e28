use hira::code_capabilities::{plan_code_writes, requested_signatures};
use hira::kv::StrMap;
use hira::level0::{FunctionSignature, L0AppendFile, L0CodeReader, L0CodeWriter, L0Core, L0RuntimeCreator, UserInput};
use hira::module_loading::{DependencyTypeName, HiraModule2, ModuleLevel};
use hira::module_parse::ModItem;
use hira::outputs::generated_diagnostics;
use hira::shared_files::HiraConfig;
use hira::text::debug_string_list;

fn module(name: &str, caps: Vec<(&str, Vec<&str>)>) -> HiraModule2 {
    HiraModule2 {
        name: name.to_string(),
        contents: String::new(),
        config_fn_is_pub: true,
        config_fn_signature_inputs: vec![],
        is_pub: true,
        input_struct_has_default: true,
        input_struct: String::new(),
        level: ModuleLevel::Level2,
        use_dependencies: vec![],
        compile_dependencies: vec![],
        lvl3_module_depends_on: None,
        extern_crates: vec![],
        outputs: vec![],
        resolved_outputs: StrMap::new(),
        capability_params: caps
            .into_iter()
            .map(|(k, v)| (k.to_string(), v.into_iter().map(|s| s.to_string()).collect()))
            .collect(),
    }
}

fn user_of(dep: &str, contents: &str) -> HiraModule2 {
    let mut user = module("user", vec![]);
    user.level = ModuleLevel::Level3;
    user.lvl3_module_depends_on = Some(dep.to_string());
    user.contents = contents.to_string();
    user
}

fn conf_with(m: HiraModule2) -> HiraConfig {
    let mut conf = <HiraConfig as Default>::default();
    conf.modules2.push(m);
    conf
}

fn sig(name: &str, inputs: Vec<(bool, &str, &str)>, ret: &str) -> FunctionSignature {
    FunctionSignature {
        name: name.to_string(),
        is_pub: true,
        is_async: false,
        is_unsafe: false,
        is_const: false,
        inputs: inputs
            .into_iter()
            .map(|(s, n, t)| UserInput { is_self: s, name: n.to_string(), ty: t.to_string() })
            .collect(),
        return_ty: ret.to_string(),
    }
}

fn writes(requestor: &str, entries: Vec<(&str, &str)>) -> Vec<(String, StrMap)> {
    let mut m = StrMap::new();
    for (k, v) in entries {
        m.insert(k.to_string(), v.to_string());
    }
    vec![(requestor.to_string(), m)]
}

fn grants(v: &[(&str, &str)]) -> Vec<(String, String)> {
    v.iter().map(|(a, b)| (a.to_string(), b.to_string())).collect()
}

#[test]
fn requested_signatures_are_picked_by_name() {
    let items = vec![
        ModItem::Fn(sig("first", vec![(false, "a", "u32")], "bool")),
        ModItem::Other,
        ModItem::Fn(sig("second", vec![], "")),
        ModItem::Fn(sig("first", vec![], "u8")),
    ];
    let names = vec!["first".to_string(), "missing".to_string()];
    let found = requested_signatures(&items, &names);
    assert_eq!(found.len(), 1);
    assert_eq!(found[0].0, "first");
    assert_eq!(found[0].1.return_ty, "u8");
    assert!(found[0].1.inputs.is_empty());
}

#[test]
fn code_reader_reads_requested_signatures() {
    let dep = module("dep", vec![("CODE_READ", vec!["fn:hello"])]);
    let conf = conf_with(dep);
    let user = user_of("dep", "mod user { pub async fn hello(x: u32, y: &str) -> bool { true } fn other() {} }");
    let mut reader = L0CodeReader::new();
    assert_eq!(reader.initialize_capabilities(&conf, &user), Ok(()));
    let f = reader.get_fn("hello").expect("hello was requested");
    assert!(f.is_pub && f.is_async && !f.is_unsafe && !f.is_const);
    assert_eq!(f.inputs.len(), 2);
    assert_eq!((f.inputs[0].is_self, f.inputs[0].name.as_str(), f.inputs[0].ty.as_str()), (false, "x", "u32"));
    assert_eq!(f.inputs[1].ty, "& str");
    assert_eq!(f.return_ty, "bool");
    assert!(reader.get_fn("other").is_none());
}

#[test]
fn code_reader_refuses_unknown_requests() {
    let dep = module("dep", vec![("CODE_READ", vec!["struct:Thing"])]);
    let conf = conf_with(dep);
    let user = user_of("dep", "mod user { }");
    let mut reader = L0CodeReader::new();
    let err = reader.initialize_capabilities(&conf, &user).unwrap_err();
    assert_eq!(err, "Module dep requested READ_CODE capability of an unknown type 'struct'");

    let dep = module("dep", vec![("CODE_READ", vec!["fn:hello"])]);
    let conf = conf_with(dep);
    let user = user_of("dep", "this is not a module");
    let err = reader.initialize_capabilities(&conf, &user).unwrap_err();
    assert!(err.starts_with("failed to parse module contents as a... module? "));
}

#[test]
fn code_reader_keeps_signatures_set() {
    let mut reader = L0CodeReader::new();
    reader.set_signatures(vec![("go".to_string(), sig("go", vec![(true, "&self", "")], "u64"))]);
    let f = reader.get_fn("go").unwrap();
    assert!(f.inputs[0].is_self);
    assert_eq!(f.return_ty, "u64");
}

#[test]
fn code_writes_are_planned_inside_and_after() {
    let w = writes("modA", vec![("global|fn hello()", "1"), ("module|pub fn inner(a: u32) -> u32", "a"), ("plain", "x")]);
    let g = grants(&[("modA", "fn_global:hello"), ("modA", "fn_module:inner")]);
    let (inside, after) = plan_code_writes(&w, &g).unwrap();
    assert_eq!(inside, vec!["pub fn inner(a: u32) -> u32 { a }".to_string()]);
    assert_eq!(after, vec!["fn hello() { 1 }".to_string()]);
}

#[test]
fn code_writes_need_grants() {
    let w = writes("modA", vec![("global|fn hello()", "1")]);
    let err = plan_code_writes(&w, &grants(&[])).unwrap_err();
    assert_eq!(err, "Module modA attempted to write a function, but no CODE_WRITE capability found");

    let err = plan_code_writes(&w, &grants(&[("modA", "fn_module:hello")])).unwrap_err();
    assert_eq!(err, "Module modA attempted to write global function hello but no fn_global:hello capability was defined");
}

#[test]
fn code_writes_need_a_function_definition() {
    let w = writes("modA", vec![("global|struct X", "")]);
    let err = plan_code_writes(&w, &grants(&[("modA", "fn_global:X")])).unwrap_err();
    assert!(err.starts_with("Module modA provided invalid function signature 'struct X'\n"));
}

#[test]
fn code_writer_without_functions_keeps_the_source() {
    let conf = <HiraConfig as Default>::default();
    let user = user_of("dep", "");
    let writer = L0CodeWriter::new();
    assert_eq!(writer.apply_changes(&conf, &user, "mod user { }"), Ok("mod user { }".to_string()));
}

#[test]
fn code_writer_adds_functions() {
    let dep = module("dep", vec![("CODE_WRITE", vec!["fn_global:hello", "fn_module:inner"])]);
    let conf = conf_with(dep);
    let user = user_of("dep", "");
    let mut writer = L0CodeWriter::new();
    writer.current_module_name = "dep".to_string();
    writer.write_global_fn("fn hello()".to_string(), "1".to_string());
    writer.write_internal_fn("fn inner() -> u32".to_string(), "2".to_string());
    let out = writer.apply_changes(&conf, &user, "mod user { fn a() {} }").unwrap();
    let module_end = out.rfind('}').unwrap();
    let inner_at = out.find("inner").unwrap();
    let hello_at = out.find("hello").unwrap();
    assert!(out.starts_with("mod user"));
    assert!(inner_at < hello_at);
    assert!(hello_at < module_end);
    assert!(out.ends_with("} fn hello() { 1 }"));

    let err = writer.apply_changes(&conf, &user, "mod user;").unwrap_err();
    assert_eq!(err, "Failed to find contents for module user");
    let err = writer.apply_changes(&conf, &user, "fn no_module() {}").unwrap_err();
    assert!(err.starts_with("Failed to parse stream as module for user\n"));
}

#[test]
fn diagnostics_are_generated_modules() {
    assert_eq!(generated_diagnostics("", ""), "");
    assert_eq!(
        generated_diagnostics("bad", ""),
        "mod _hira_generated_error { fn _err() { compile_error!(r#\"bad\"#); } }"
    );
    assert_eq!(
        generated_diagnostics("", "careful"),
        "mod _hira_generated_warning { #[deprecated(note = r#\"\ncareful\"#)]pub fn hira_generated_warning() {}\n fn _hira_use_warning() { hira_generated_warning() } }"
    );
    let both = generated_diagnostics("bad", "careful");
    assert!(both.starts_with("mod _hira_generated_error"));
    assert!(both.contains("}\nmod _hira_generated_warning"));
}

#[test]
fn core_appends_diagnostics_and_resolves_outputs() {
    let conf = conf_with(module("lvl2mod", vec![]));
    let mut user = user_of("lvl2mod", "");
    let mut core = L0Core::new();
    core.compiler_error("boom");
    core.compiler_warning("careful");
    let out = core.apply_changes(&conf, &mut user, "mod user { }").unwrap();
    assert!(out.starts_with("mod user"));
    assert!(out.contains("_hira_generated_error"));
    assert!(out.contains("boom"));
    assert!(out.contains("_hira_generated_warning"));
    assert_eq!(core.compiler_warning_message, "\ncareful");

    let mut lost = user_of("lvl2mod", "");
    lost.lvl3_module_depends_on = None;
    let mut core = L0Core::new();
    assert!(core.apply_changes(&conf, &mut lost, "mod user { }").is_err());
}

#[test]
fn appended_lines_need_a_files_grant() {
    let mut conf = conf_with(module("dep", vec![("FILES", vec!["ok.txt"])]));
    let user = user_of("dep", "");
    let mut files = L0AppendFile::new();
    files.current_module_name = "dep".to_string();
    files.append_to_file("ok.txt", "# a", "line".to_string());
    assert_eq!(files.apply_changes(&mut conf, &user), Ok(vec![]));
    assert!(files.shared_output_data.is_empty());

    files.append_to_file("other.txt", "# a", "line".to_string());
    let err = files.apply_changes(&mut conf, &user).unwrap_err();
    assert_eq!(
        err,
        "Module 'user' had a dependency that attempted to write file other.txt, but allowed files are only {\"ok.txt\"}"
    );
    assert!(files.shared_output_data.is_empty());
}

#[test]
fn runtime_lines_are_handed_over_when_granted() {
    let conf = conf_with(module("dep", vec![("RUNTIME", vec!["rt"])]));
    let user = user_of("dep", "");
    let mut runtimer = L0RuntimeCreator::new();
    runtimer.current_module_name = "dep".to_string();
    runtimer.add_to_runtime("rt", "a()".to_string());
    let taken = runtimer.apply_changes(&conf, &user).unwrap();
    assert_eq!(taken.len(), 1);
    assert_eq!(taken[0].0, "rt");
    assert!(runtimer.runtimes.is_empty());

    runtimer.current_module_name = "stranger".to_string();
    runtimer.add_to_runtime("rt", "b()".to_string());
    match runtimer.apply_changes(&conf, &user) {
        Err(err) => assert_eq!(err, "Module 'stranger' requested to use runtime rt but no RUNTIME capability was found"),
        Ok(_) => panic!("expected the line of an ungranted module to be refused"),
    }
    assert!(runtimer.runtimes.is_empty());
}

#[test]
fn debug_lists_are_quoted_and_separated() {
    assert_eq!(debug_string_list(&vec![]), "[]");
    assert_eq!(
        debug_string_list(&vec!["a".to_string(), "b\"c".to_string()]),
        format!("{:?}", vec!["a", "b\"c"])
    );
}

#[test]
fn level_follows_parameter_text() {
    let mut m = module("m", vec![]);
    m.level = ModuleLevel::Level1;
    m.config_fn_signature_inputs = vec!["& mut L0Core".to_string()];
    let _ = m.verify_config_signature("");
    assert_eq!(m.level, ModuleLevel::Level2);

    let mut m = module("m", vec![]);
    m.level = ModuleLevel::Level1;
    m.config_fn_signature_inputs = vec!["& mut other_mod :: Input".to_string()];
    let _ = m.verify_config_signature("");
    assert_eq!(m.level, ModuleLevel::Level3);
    assert_eq!(m.compile_dependencies.len(), 1);
    assert!(matches!(&m.compile_dependencies[0], DependencyTypeName::Mod1Or2(x) if x == "other_mod"));
}

#[test]
fn library_applies_every_stage() {
    let dep = module("dep", vec![("CODE_WRITE", vec!["fn_global:hello"]), ("RUNTIME", vec!["rt"]), ("CODE_READ", vec![])]);
    let mut conf = conf_with(dep);
    let mut user = user_of("dep", "mod user { }");
    let mut obj = hira::level0::LibraryObj::new();
    assert_eq!(obj.initialize_capabilities(&conf, &user, "mycrate"), Ok(()));
    assert_eq!(obj.l0_core.crate_name, "mycrate");
    assert_eq!(obj.l0_core.lvl3_module_name, "user");
    obj.l0_code_writer.current_module_name = "dep".to_string();
    obj.l0_code_writer.write_global_fn("fn hello()".to_string(), "1".to_string());
    obj.l0_runtime_creator.current_module_name = "dep".to_string();
    obj.l0_runtime_creator.add_to_runtime("rt", "a()".to_string());
    let (src, files, rts) = match obj.apply_changes(&mut conf, &mut user, "mod user { }") {
        Ok(x) => x,
        Err(e) => panic!("{}", e),
    };
    assert!(src.starts_with("mod user"));
    assert!(src.contains("hello"));
    assert!(files.is_empty());
    assert_eq!(rts.len(), 1);
    assert!(obj.l0_runtime_creator.runtimes.is_empty());
}

#[test]
fn core_appends_exactly_the_diagnostics() {
    let conf = conf_with(module("lvl2mod", vec![]));
    let mut user = user_of("lvl2mod", "");
    let mut core = L0Core::new();
    core.compiler_warning("careful");
    let out = core.apply_changes(&conf, &mut user, "mod user { }").unwrap();
    assert_eq!(
        out,
        "mod user { } mod _hira_generated_warning { #[deprecated(note = r#\"\ncareful\"#)]pub fn hira_generated_warning() {}\n fn _hira_use_warning() { hira_generated_warning() } }"
    );
    let mut user = user_of("lvl2mod", "");
    let mut quiet = L0Core::new();
    assert_eq!(quiet.apply_changes(&conf, &mut user, "mod user { }"), Ok("mod user { }".to_string()));
}

#[test]
fn shared_files_keep_every_module_s_lines() {
    let mut conf = conf_with(module("dep", vec![("FILES", vec!["ok.txt"])]));
    let user = user_of("dep", "");
    let mut first = L0AppendFile::new();
    first.current_module_name = "dep".to_string();
    first.append_to_file("ok.txt", "# a", "line1".to_string());
    assert_eq!(first.apply_changes(&mut conf, &user), Ok(vec![]));
    let mut second = L0AppendFile::new();
    second.current_module_name = "dep".to_string();
    second.append_to_file("ok.txt", "# a", "line2".to_string());
    assert_eq!(second.apply_changes(&mut conf, &user), Ok(vec![]));
    assert_eq!(conf.get_shared_file_data("ok.txt"), Some("# a\nline1\nline2\n".to_string()));

    let before = conf.shared_file_data.len();
    let modules_before = conf.modules2.len();
    let mut bad = L0AppendFile::new();
    bad.append_to_file("other.txt", "# a", "x".to_string());
    assert!(bad.apply_changes(&mut conf, &user).is_err());
    assert_eq!(conf.shared_file_data.len(), before);
    assert_eq!(conf.modules2.len(), modules_before);
    assert_eq!(conf.get_shared_file_data("ok.txt"), Some("# a\nline1\nline2\n".to_string()));
}

#[test]
fn written_files_have_sorted_labels() {
    let mut conf = conf_with(module("dep", vec![("FILES", vec!["ok.txt"])]));
    conf.should_do_file_ops = true;
    conf.gen_directory = "gen".to_string();
    let user = user_of("dep", "");
    let mut files = L0AppendFile::new();
    files.append_to_file("ok.txt", "# b", "second".to_string());
    files.append_to_file("ok.txt", "# a", "first".to_string());
    let written = files.apply_changes(&mut conf, &user).unwrap();
    assert_eq!(written, vec![("gen/ok.txt".to_string(), "# a\nfirst\n# b\nsecond\n".to_string())]);
    assert_eq!(conf.shared_file_data[0].lines[0].key, "# a");
}
