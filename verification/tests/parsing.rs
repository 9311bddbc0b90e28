use std::str::FromStr;

use hira::funcdef::parse_func_def_safe;
use hira::tokens::{Delim, ParseError, Tok};
use hira::use_paths::{convert_to_snake_case, remove_surrounding_quotes};

fn to_tok(t: proc_macro2::TokenTree) -> Tok {
    match t {
        proc_macro2::TokenTree::Ident(i) => Tok::Ident(i.to_string()),
        proc_macro2::TokenTree::Punct(p) => Tok::Punct(p.as_char(), p.spacing() == proc_macro2::Spacing::Joint),
        proc_macro2::TokenTree::Literal(l) => Tok::Literal(l.to_string()),
        proc_macro2::TokenTree::Group(g) => {
            let d = match g.delimiter() {
                proc_macro2::Delimiter::Parenthesis => Delim::Parenthesis,
                proc_macro2::Delimiter::Brace => Delim::Brace,
                proc_macro2::Delimiter::Bracket => Delim::Bracket,
                proc_macro2::Delimiter::None => Delim::NoDelim,
            };
            let text = g.to_string();
            Tok::Group(d, g.stream().into_iter().map(to_tok).collect(), text)
        }
    }
}

fn toks(s: &str) -> Vec<Tok> {
    proc_macro2::TokenStream::from_str(s).unwrap().into_iter().map(to_tok).collect()
}

#[test]
fn can_parse_func_defs() {
    let fdefs = [
        // is_async, is_public, is_unsafe, is_const, func def
        (false, false, false, false, "fn hello(x: String) -> String { \"a\".into() }"),
        (false, true, false, false, "pub fn hello(x: String) -> String { \"a\".into() }"),
        (true, false, false, false, "async fn hello(x: String) -> String { \"a\".into() }"),
        (false, false, true, false, "unsafe fn hello(x: String) -> String { \"a\".into() }"),
        (false, false, false, true, "const fn hello(x: String) -> String { \"a\".into() }"),
        (false, true, true, true, "pub const unsafe fn hello(x: String) -> String { \"a\".into() }"),
        (true, true, true, false, "pub async unsafe fn hello(x: String) -> String { \"a\".into() }"),
    ];
    for (is_async, is_public, is_unsafe, is_const, fdef) in fdefs {
        let stream = toks(fdef);
        let mut fdef = parse_func_def_safe(stream, false).expect("Failed to parse");
        assert_eq!(fdef.fn_async_ident.is_some(), is_async);
        assert_eq!(fdef.fn_pub_ident.is_some(), is_public);
        assert_eq!(fdef.fn_unsafe_ident.is_some(), is_unsafe);
        assert_eq!(fdef.fn_const_ident.is_some(), is_const);
        assert_eq!(fdef.get_return_type(), "String");
        fdef.assert_num_params(1);
    }
}

#[test]
fn to_snakecase_works() {
    let field_ty = "L0KvReader";
    assert_eq!(convert_to_snake_case(field_ty), "l0_kv_reader");
}

#[test]
fn snake_case_keeps_lowercase_and_digits() {
    assert_eq!(convert_to_snake_case("already_snake1"), "already_snake1");
    assert_eq!(convert_to_snake_case("HTTPServer"), "h_t_t_p_server");
    assert_eq!(convert_to_snake_case(""), "");
}

#[test]
fn surrounding_quotes_come_off_pair_after_pair() {
    let mut s = "\"\"abc\"\"".to_string();
    remove_surrounding_quotes(&mut s);
    assert_eq!(s, "abc");
    let mut lone = "\"".to_string();
    remove_surrounding_quotes(&mut lone);
    assert_eq!(lone, "\"");
    let mut half = "\"abc".to_string();
    remove_surrounding_quotes(&mut half);
    assert_eq!(half, "\"abc");
}

#[test]
fn refused_function_definitions_say_why() {
    assert!(matches!(parse_func_def_safe(toks("pub"), false), Err(ParseError::UnexpectedEnd)));
    assert!(matches!(parse_func_def_safe(toks("struct X {}"), false), Err(ParseError::UnexpectedIdent(w)) if w == "struct"));
    assert!(matches!(parse_func_def_safe(toks("fn \"x\"() {}"), false), Err(ParseError::KindMismatch)));
    assert!(matches!(
        parse_func_def_safe(toks("fn x[] {}"), false),
        Err(ParseError::DelimiterMismatch(Delim::Parenthesis, Delim::Bracket))
    ));
    assert!(matches!(parse_func_def_safe(toks("fn x() + {}"), false), Err(ParseError::UnexpectedToken)));
    assert!(matches!(parse_func_def_safe(toks("fn x() -> u32"), false), Err(ParseError::UnexpectedEnd)));
}
