use hira::kv::StrMap;
use hira::level0::{L0AppendFile, L0CodeWriter, L0Core, L0RuntimeCreator, LibraryObj};
use hira::shared_files::{to_map_entry, HiraConfig};

#[test]
fn first_compiler_error_is_kept() {
    let mut core = L0Core::new();
    core.compiler_error("first");
    core.compiler_error("second");
    assert_eq!(core.compiler_error_message, "first");
    core.compiler_warning("careful");
    core.compiler_warning("more careful");
    assert_eq!(core.compiler_warning_message, "careful");
}

#[test]
fn output_read_after_write() {
    let mut core = L0Core::new();
    core.current_module_name = "mymod".to_string();
    core.set_output("REGION", "us-east-2");
    core.set_output("REGION", "eu-west-1");
    assert_eq!(core.remove_specific_output("mymod", "REGION"), Some("eu-west-1".to_string()));
    assert_eq!(core.remove_specific_output("mymod", "REGION"), None);
    assert_eq!(core.remove_specific_output("othermod", "REGION"), None);
}

#[test]
fn draining_outputs_moves_them() {
    let mut core = L0Core::new();
    core.current_module_name = "a".to_string();
    core.set_output("X", "1");
    core.set_output("Y", "2");
    let mut existing = StrMap::new();
    existing.insert("X".to_string(), "old".to_string());
    existing.insert("Z".to_string(), "3".to_string());
    core.drain_outputs_into("a", &mut existing);
    assert_eq!(existing.get("X"), Some("1".to_string()));
    assert_eq!(existing.get("Y"), Some("2".to_string()));
    assert_eq!(existing.get("Z"), Some("3".to_string()));
    assert_eq!(core.remove_specific_output("a", "X"), None);
}

#[test]
fn str_map_insert_get_remove() {
    let mut m = StrMap::new();
    assert!(!m.contains_key("k"));
    m.insert("k".to_string(), "v".to_string());
    assert!(m.contains_key("k"));
    assert_eq!(m.get("k"), Some("v".to_string()));
    assert_eq!(m.remove("k"), Some("v".to_string()));
    assert_eq!(m.get("k"), None);
}

#[test]
fn lines_are_sorted_by_label() {
    let mut file = L0AppendFile::new();
    file.append_to_file("hello.txt", "b", "line1".to_string());
    file.append_to_file("hello.txt", "b", "line2".to_string());
    file.append_to_file("hello.txt", "a", "line3".to_string());
    file.append_to_file("hello.txt", "a", "line4".to_string());
    let grouped = to_map_entry(file.shared_output_data);
    let mut conf = HiraConfig::default();
    assert!(conf.merge_shared_files("module", grouped).is_ok());
    assert_eq!(conf.get_shared_file_data("hello.txt"), Some("a\nline3\nline4\nb\nline1\nline2\n".to_string()));
    assert_eq!(conf.get_shared_file_data("other.txt"), None);
}

#[test]
fn append_to_line_inserts_after_search_string() {
    let mut file = L0AppendFile::new();
    file.append_to_line("hello.txt", "a", "hello ".to_string(), ", and also my friend Tim!".to_string());
    file.append_to_line("hello.txt", "a", "hello ".to_string(), "world".to_string());
    let grouped = to_map_entry(file.shared_output_data);
    let mut conf = HiraConfig::default();
    assert!(conf.merge_shared_files("module", grouped).is_ok());
    assert_eq!(conf.get_shared_file_data("hello.txt"), Some("a\nhello world, and also my friend Tim!\n".to_string()));
}

#[test]
fn unique_lines_are_written_once() {
    let mut file = L0AppendFile::new();
    file.append_to_file_unique("x.txt", "# 0", "same".to_string());
    file.append_to_file_unique("x.txt", "# 0", "same".to_string());
    file.append_to_file("x.txt", "# 0", "twice".to_string());
    file.append_to_file("x.txt", "# 0", "twice".to_string());
    let grouped = to_map_entry(file.shared_output_data);
    let mut conf = HiraConfig::default();
    conf.merge_shared_files("module", grouped).unwrap();
    assert_eq!(conf.get_shared_file_data("x.txt"), Some("# 0\nsame\ntwice\ntwice\n".to_string()));
}

#[test]
fn files_outside_the_shared_directory_are_refused() {
    let mut file = L0AppendFile::new();
    file.append_to_file("ok.txt", "a", "1".to_string());
    file.append_to_file("../escape.txt", "a", "2".to_string());
    let grouped = to_map_entry(file.shared_output_data);
    let mut conf = HiraConfig::default();
    let err = conf.merge_shared_files("mymod", grouped).unwrap_err();
    assert_eq!(err, "Wasm module 'mymod' attempted to output a shared file outside the shared file directory \"../escape.txt\"");
    // the file before the refused one was written
    assert_eq!(conf.get_shared_file_data("ok.txt"), Some("a\n1\n".to_string()));
}

#[test]
fn shared_files_are_written_only_when_asked() {
    let mut file = L0AppendFile::new();
    file.append_to_file("f.txt", "b", "x".to_string());
    let mut conf = HiraConfig::default();
    conf.set_directories(Some("/crate"), None);
    assert_eq!(conf.gen_directory, "/crate/hira/generated");
    assert_eq!(conf.module_cache_directory, "./hira/cached_modules");
    let out = conf.output_shared_files("m", to_map_entry(file.shared_output_data)).unwrap();
    assert!(out.is_empty());
    conf.set_should_do_file_ops(Some("full"), None);
    assert!(conf.should_do_file_ops);
    let out = conf.output_shared_files("m", vec![]).unwrap();
    assert_eq!(out, vec![("/crate/hira/generated/f.txt".to_string(), "b\nx\n".to_string())]);
    conf.set_should_do_file_ops(Some("full"), Some("0"));
    assert!(!conf.should_do_file_ops);
    conf.set_should_do_file_ops(None, Some("true"));
    assert!(conf.should_do_file_ops);
}

#[test]
fn functions_are_written_by_kind() {
    let mut w = L0CodeWriter::new();
    w.current_module_name = "m".to_string();
    w.write_global_fn("pub fn main()".to_string(), "".to_string());
    w.write_internal_fn("pub fn heyo()".to_string(), "x()".to_string());
    assert_eq!(w.functions.len(), 1);
    assert_eq!(w.functions[0].1.get("global|pub fn main()"), Some("".to_string()));
    assert_eq!(w.functions[0].1.get("module|pub fn heyo()"), Some("x()".to_string()));
}

#[test]
fn runtime_lines_keep_their_order() {
    let mut r = L0RuntimeCreator::new();
    r.current_module_name = "a".to_string();
    r.add_to_runtime("deploy", "first()".to_string());
    r.current_module_name = "b".to_string();
    r.add_to_runtime_unique("deploy", "second()".to_string());
    assert_eq!(r.runtimes.len(), 1);
    let lines = &r.runtimes[0].1.code_lines;
    assert_eq!(lines.len(), 2);
    assert_eq!(lines[0].creator, "a");
    assert_eq!(lines[1].code, "second()");
    assert!(lines[1].unique_line);
}

#[test]
fn current_module_is_set_everywhere() {
    let mut obj = LibraryObj::new();
    obj.set_current_module("mod3");
    assert_eq!(obj.l0_core.current_module_name, "mod3");
    assert_eq!(obj.l0_append_file.current_module_name, "mod3");
    assert_eq!(obj.l0_runtime_creator.current_module_name, "mod3");
}
