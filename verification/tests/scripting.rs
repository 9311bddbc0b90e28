use hira::module_scripting::{check_module_fn, module_run_error, module_scope_region, strip_quotes_loop, GlobalSettings};

#[test]
fn quotes_come_off_every_pair() {
    assert_eq!(strip_quotes_loop("\"\"us-west-2\"\""), "us-west-2");
    assert_eq!(strip_quotes_loop("\"a"), "\"a");
    assert_eq!(module_scope_region("\"eu-west-1\""), "eu-west-1");
}

#[test]
fn module_function_must_take_one_parameter() {
    let fns = vec![("helper".to_string(), 2), ("func_macro".to_string(), 1)];
    assert_eq!(check_module_fn("m", "func_macro", &fns), Ok(()));
    assert_eq!(
        check_module_fn("m", "mod_macro", &fns),
        Err("hira::module 'm' is missing a fn mod_macro(x) {} function.".to_string())
    );
    assert_eq!(
        check_module_fn("m", "helper", &fns),
        Err("fn helper() {} was found but it takes 2 parameters, expected 1".to_string())
    );
}

#[test]
fn run_errors_name_the_module() {
    assert_eq!(
        module_run_error("m", "f", true, "ignored"),
        "Error in module 'm'. fn f(x) { } must return the first input parameter"
    );
    assert_eq!(module_run_error("m", "f", false, "boom"), "Error running module 'm': boom");
}

#[test]
fn code_after_is_added_once() {
    let mut seen = vec![];
    let mut first = GlobalSettings::new();
    assert!(first.add_code_after(&mut seen, "fn generatedfn() {}").is_ok());
    assert_eq!(first.arrange("fn myfunc() {}".to_string()), vec!["fn myfunc() {}", "fn generatedfn() {}"]);
    let mut second = GlobalSettings::new();
    assert!(second.add_code_after(&mut seen, "fn generatedfn() {}").is_ok());
    assert_eq!(second.arrange("mod mymod {}".to_string()), vec!["mod mymod {}"]);
}

#[test]
fn code_before_comes_first() {
    let mut s = GlobalSettings::new();
    assert!(s.add_code_before("#[cfg(hello)]").is_ok());
    let mut seen = vec![];
    assert!(s.add_code_after(&mut seen, "fn generatedfn1() {}").is_ok());
    assert_eq!(s.arrange("fn myfunc() {}".to_string()), vec!["#[cfg(hello)]", "fn myfunc() {}", "fn generatedfn1() {}"]);
}

#[test]
fn code_that_does_not_lex_is_refused() {
    let mut s = GlobalSettings::new();
    let mut seen = vec![];
    let e = s.add_code_after(&mut seen, "fn x() { ").unwrap_err();
    assert!(e.starts_with("Error creating TokenStream in `add_code_after` from fn x() { . "));
    assert!(s.add_code_after.is_empty());
    assert_eq!(seen, vec!["fn x() { "]);
    let e = s.add_code_before("\"unterminated").unwrap_err();
    assert!(e.starts_with("Error creating TokenStream in `add_code_before` from \"unterminated. "));
}

#[test]
fn lexer_verdicts_decide_the_code() {
    let mut s = GlobalSettings::new();
    let mut seen = vec![];
    assert_eq!(
        s.add_code_after_checked(&mut seen, "x", Some("lex error".to_string())),
        Err("Error creating TokenStream in `add_code_after` from x. lex error".to_string())
    );
    assert!(s.add_code_after.is_empty());
    assert_eq!(s.add_code_after_checked(&mut seen, "x", None), Ok(()));
    assert!(s.add_code_after.is_empty());
    assert_eq!(s.add_code_after_checked(&mut seen, "y", None), Ok(()));
    assert_eq!(s.add_code_after, vec!["y"]);
    assert_eq!(
        s.add_code_before_checked("z", Some("e".to_string())),
        Err("Error creating TokenStream in `add_code_before` from z. e".to_string())
    );
    assert_eq!(s.add_code_before_checked("z", None), Ok(()));
    assert_eq!(s.add_code_before, vec!["z"]);
}
