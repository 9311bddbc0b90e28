use vstd::prelude::*;
use vstd::string::*;

use crate::attributes::{parse_attr_stream, try_parse_attributes, ConstTable};
use crate::cfn_resources::{add_s3_bucket_resource, s3_resource_text};
use crate::deploy::DeployState;
use crate::macro_text::{
    s3_client_fn_text, s3_client_fn_text_string, s3_init_cmd_text, s3_init_cmd_text_string,
    s3_init_main_text, s3_init_main_text_string, s3_object_fns_text, s3_object_fns_text_string,
    static_website_text, static_website_text_string,
};
use crate::macros::MacroError;
use crate::funcdef::{fn_def_matches, fn_shape, opt_toks, params_of, parse_func_def_safe, parse_params, toks_text, FuncDef};
use crate::resources::{lambda_from_attr, lambda_view, LambdaFunction};
use crate::cfn_resources::{add_lambda_resource, lambda_resource_text};
use crate::deploy::pair_views;
use crate::text::{seq_starts_with, starts_with, without_char, remove_char, seq_contains_run, seq_ends_with, lemma_ends_with_concat, lemma_run_across, lemma_runs_in_concats};
use crate::macro_text::{
    lambda_build_cmd_text, lambda_build_cmd_text_string, lambda_client_fn_text,
    lambda_client_fn_text_string, lambda_copy_cmd_text, lambda_copy_cmd_text_string,
    lambda_invoke_safe_text, lambda_invoke_safe_text_string, lambda_invoke_text,
    lambda_invoke_text_string, lambda_main_text, lambda_main_text_string, lambda_md5_cmd_text,
    lambda_md5_cmd_text_string, lambda_move_cmd_text, lambda_move_cmd_text_string,
    lambda_prototype_text, lambda_prototype_text_string, lambda_zip_cmd_text,
    lambda_zip_cmd_text_string, lambda_zip_name_text, lambda_zip_name_text_string,
};
use crate::moddef::{mod_def_matches, mod_shape, parse_mod_def_safe, scan_for_tokens, ModDef};
use crate::resources::{s3_from_attr, s3_view, static_website_from_attr, S3Bucket, StaticWebsite};
use crate::text::{remove_chars, strings_view, without_chars};
use crate::tokens::{is_group_with, is_ident_text, token_match_text, Delim};
use crate::kv::StrMap;
use crate::macro_text::const_decl_text;
use crate::macro_text::const_decl_text_string;
use crate::text::{concat3, strip_one_quote_pair, strip_quote_pair, to_string};
use crate::tokens::{tok_text, token_text, Tok};

verus! {

/// Whether the map is there and well formed.
pub open spec fn env_ready(e: Option<StrMap>) -> bool {
    match e {
        Some(m) => m.wf(),
        None => true,
    }
}

/// The value of `key` in the loaded `.env` bindings, if they are loaded and bind it.
pub open spec fn env_value(e: Option<StrMap>, key: Seq<char>) -> Option<Seq<char>> {
    match e {
        Some(m) => if m@.dom().contains(key) {
            Some(m@[key])
        } else {
            None
        },
        None => None,
    }
}

fn env_lookup(e: &Option<StrMap>, key: &str) -> (r: Option<String>)
    requires
        env_ready(*e),
    ensures
        match env_value(*e, key@) {
            Some(v) => r matches Some(x) && x@ == v,
            None => r is None,
        },
{
    match e {
        Some(m) => m.get(key),
        None => None,
    }
}

/// The text of an identifier token.
pub open spec fn ident_of(t: Tok) -> Option<Seq<char>> {
    match t {
        Tok::Ident(a) => Some(a@),
        _ => None,
    }
}

/// A constant bound from the `.env` file: `NAME` must be an identifier bound in the loaded
/// bindings. Gives the declaration `pub const NAME: &'static str = "value";` and binds the
/// constant for later attributes.
pub open spec fn env_const_outcome(item: Seq<Tok>, e: Option<StrMap>, macro_name: Seq<char>) -> Result<
    (Seq<char>, Seq<char>),
    Seq<char>,
> {
    if item.len() == 0 {
        Err("must provide an identifier"@)
    } else {
        match ident_of(item[0]) {
            None => Err(macro_name + " only accepts an identifier"@),
            Some(key) => match e {
                None => Err("Unexpected failure to read .env file"@),
                Some(_) => match env_value(e, key) {
                    Some(v) => Ok((key, v)),
                    None => Err("Failed to find "@ + key + " in loaded .env file"@),
                },
            },
        }
    }
}

fn env_const(item: &Vec<Tok>, state: &mut DeployState, macro_name: &str) -> (r: Result<(String, String), String>)
    requires
        old(state).loaded_consts.wf(),
        env_ready(old(state).dot_env),
    ensures
        final(state).loaded_consts.wf(),
        final(state).dot_env == old(state).dot_env,
        final(state).build_bucket == old(state).build_bucket,
        final(state).deploy_region == old(state).deploy_region,
        final(state).stack_name == old(state).stack_name,
        match env_const_outcome(item@, old(state).dot_env, macro_name@) {
            Ok(p) => r matches Ok(x) && x.0@ == p.0 && x.1@ == p.1 && final(state).loaded_consts.lookup(
                p.0,
            ) == Some(p.1) && forall|k: Seq<char>|
                k != p.0 ==> final(state).loaded_consts.lookup(k) == old(state).loaded_consts.lookup(
                    k,
                ),
            Err(m) => r matches Err(x) && x@ == m && final(state).loaded_consts == old(state).loaded_consts,
        },
{
    proof {
        reveal_strlit("");
        assert(macro_name@ + " only accepts an identifier"@ + ""@ =~= macro_name@
            + " only accepts an identifier"@);
    }
    if item.len() == 0 {
        return Err(to_string("must provide an identifier"));
    }
    let key = match &item[0] {
        Tok::Ident(a) => a.clone(),
        _ => {
            return Err(concat3(macro_name, " only accepts an identifier", ""));
        },
    };
    if state.dot_env.is_none() {
        return Err(to_string("Unexpected failure to read .env file"));
    }
    let value = match env_lookup(&state.dot_env, key.as_str()) {
        Some(v) => v,
        None => {
            return Err(concat3("Failed to find ", key.as_str(), " in loaded .env file"));
        },
    };
    state.loaded_consts.set_const(key.as_str(), value.as_str());
    Ok((key, value))
}

/// `const_from_dot_env!(NAME)`: declares `NAME` as a string constant with its value in the
/// loaded `.env` bindings (see `env_const_outcome`); the error is the message to stop the
/// build with.
pub fn const_from_dot_env(item: &Vec<Tok>, state: &mut DeployState) -> (r: Result<String, String>)
    requires
        old(state).loaded_consts.wf(),
        env_ready(old(state).dot_env),
    ensures
        final(state).loaded_consts.wf(),
        final(state).dot_env == old(state).dot_env,
        match env_const_outcome(item@, old(state).dot_env, "const_from_dot_env"@) {
            Ok(p) => r matches Ok(x) && x@ == const_decl_text(p.0, p.1)
                && final(state).loaded_consts.lookup(p.0) == Some(p.1),
            Err(m) => r matches Err(x) && x@ == m,
        },
{
    match env_const(item, state, "const_from_dot_env") {
        Ok((k, v)) => Ok(const_decl_text_string(k.as_str(), v.as_str())),
        Err(e) => Err(e),
    }
}

/// `secret_from_dot_env!(NAME)`: like `const_from_dot_env!`, but the value is only bound for
/// the build and no code is written.
pub fn secret_from_dot_env(item: &Vec<Tok>, state: &mut DeployState) -> (r: Result<String, String>)
    requires
        old(state).loaded_consts.wf(),
        env_ready(old(state).dot_env),
    ensures
        final(state).loaded_consts.wf(),
        final(state).dot_env == old(state).dot_env,
        match env_const_outcome(item@, old(state).dot_env, "secret_from_dot_env"@) {
            Ok(p) => r matches Ok(x) && x@.len() == 0 && final(state).loaded_consts.lookup(p.0)
                == Some(p.1),
            Err(m) => r matches Err(x) && x@ == m,
        },
{
    match env_const(item, state, "secret_from_dot_env") {
        Ok(_) => Ok(String::new()),
        Err(e) => Err(e),
    }
}

/// The message when fewer than two arguments are given.
pub open spec fn missing_args_text(macro_name: Seq<char>, example: Seq<char>) -> Seq<char> {
    "Unexpected end of parameters. Must provide 2 parameters to "@ + macro_name
        + "!(). For example `"@ + macro_name + "!(MY_VAR, \""@ + example + "\")`"@
}

/// `NAME, "value"` as a macro reads it: the name, and the literal without its quotes.
pub open spec fn name_and_literal(item: Seq<Tok>, macro_name: Seq<char>, first_msg: Seq<char>, example: Seq<char>) -> Result<
    (Seq<char>, Seq<char>),
    Seq<char>,
> {
    if item.len() == 0 {
        Err("must provide an identifier"@)
    } else {
        match ident_of(item[0]) {
            None => Err(first_msg),
            Some(key) => if item.len() < 2 {
                Err(missing_args_text(macro_name, example))
            } else if !(item[1] is Punct) {
                Err("Expected punctuation ',', instead found "@ + tok_text(item[1]) + " token"@)
            } else if item.len() < 3 {
                Err(missing_args_text(macro_name, example))
            } else {
                match item[2] {
                    Tok::Literal(s) => Ok((key, strip_one_quote_pair(s@))),
                    _ => Err("Expected string literal. Instead found "@ + tok_text(item[2])),
                }
            },
        }
    }
}

fn read_name_and_literal(item: &Vec<Tok>, macro_name: &str, first_msg: &str, example: &str) -> (r:
    Result<(String, String), String>)
    ensures
        match name_and_literal(item@, macro_name@, first_msg@, example@) {
            Ok(p) => r matches Ok(x) && x.0@ == p.0 && x.1@ == p.1,
            Err(m) => r matches Err(x) && x@ == m,
        },
{
    if item.len() == 0 {
        return Err(to_string("must provide an identifier"));
    }
    let key = match &item[0] {
        Tok::Ident(a) => a.clone(),
        _ => {
            return Err(to_string(first_msg));
        },
    };
    let mut missing = concat3(
        "Unexpected end of parameters. Must provide 2 parameters to ",
        macro_name,
        "!(). For example `",
    );
    missing.append(macro_name);
    missing.append("!(MY_VAR, \"");
    missing.append(example);
    missing.append("\")`");
    if item.len() < 2 {
        return Err(missing);
    }
    match &item[1] {
        Tok::Punct(_, _) => {},
        _ => {
            let t = token_text(&item[1]);
            return Err(concat3("Expected punctuation ',', instead found ", t.as_str(), " token"));
        },
    }
    if item.len() < 3 {
        return Err(missing);
    }
    match &item[2] {
        Tok::Literal(s) => Ok((key, strip_quote_pair(s.as_str()))),
        _ => {
            let t = token_text(&item[2]);
            proof {
                reveal_strlit("");
                assert("Expected string literal. Instead found "@ + t@ + ""@
                    =~= "Expected string literal. Instead found "@ + t@);
            }
            Err(concat3("Expected string literal. Instead found ", t.as_str(), ""))
        },
    }
}

/// `const_from!(NAME, "value")`: declares `NAME` as a string constant with the value and
/// binds it for later attributes.
pub fn const_from(item: &Vec<Tok>, state: &mut DeployState) -> (r: Result<String, String>)
    requires
        old(state).loaded_consts.wf(),
    ensures
        final(state).loaded_consts.wf(),
        final(state).dot_env == old(state).dot_env,
        match name_and_literal(
            item@,
            "const_from"@,
            "const_from first parameter must be an identifier"@,
            "my-value"@,
        ) {
            Ok(p) => r matches Ok(x) && x@ == const_decl_text(p.0, p.1)
                && final(state).loaded_consts.lookup(p.0) == Some(p.1),
            Err(m) => r matches Err(x) && x@ == m && final(state).loaded_consts == old(state).loaded_consts,
        },
{
    match read_name_and_literal(
        item,
        "const_from",
        "const_from first parameter must be an identifier",
        "my-value",
    ) {
        Ok((k, v)) => {
            state.loaded_consts.set_const(k.as_str(), v.as_str());
            Ok(const_decl_text_string(k.as_str(), v.as_str()))
        },
        Err(e) => Err(e),
    }
}

/// `const_from_dot_env_or_default!(NAME, "default")`: declares `NAME` with its value in the
/// `.env` bindings, or the default when they are not loaded or do not bind it.
pub fn const_from_dot_env_or_default(item: &Vec<Tok>, state: &mut DeployState) -> (r: Result<
    String,
    String,
>)
    requires
        old(state).loaded_consts.wf(),
        env_ready(old(state).dot_env),
    ensures
        final(state).loaded_consts.wf(),
        final(state).dot_env == old(state).dot_env,
        match name_and_literal(
            item@,
            "const_from_dot_env_or_default"@,
            "const_from_dot_env_or_default only accepts an identifier"@,
            "my-default-value"@,
        ) {
            Ok(p) => {
                let v = match env_value(old(state).dot_env, p.0) {
                    Some(x) => x,
                    None => p.1,
                };
                r matches Ok(x) && x@ == const_decl_text(p.0, v) && final(state).loaded_consts.lookup(p.0) == Some(v)
            },
            Err(m) => r matches Err(x) && x@ == m,
        },
{
    match read_name_and_literal(
        item,
        "const_from_dot_env_or_default",
        "const_from_dot_env_or_default only accepts an identifier",
        "my-default-value",
    ) {
        Ok((k, default_value)) => {
            let value = match env_lookup(&state.dot_env, k.as_str()) {
                Some(v) => v,
                None => default_value,
            };
            state.loaded_consts.set_const(k.as_str(), value.as_str());
            Ok(const_decl_text_string(k.as_str(), value.as_str()))
        },
        Err(e) => Err(e),
    }
}

/// `set_build_bucket!(..)`: the bucket is a constant's value or a literal as written (with
/// its quotes).
pub fn set_build_bucket(item: &Vec<Tok>, state: &mut DeployState) -> (r: Result<(), String>)
    ensures
        final(state).loaded_consts == old(state).loaded_consts,
        final(state).dot_env == old(state).dot_env,
        final(state).deploy_region == old(state).deploy_region,
        item@.len() == 0 ==> (r matches Err(m) && m@ == "must provide bucket to set_build_bukcet"@)
            && final(state).build_bucket == old(state).build_bucket,
        item@.len() > 0 ==> match item@[0] {
            Tok::Ident(a) => match old(state).loaded_consts.lookup(a@) {
                Some(v) => r is Ok && final(state).build_bucket@ == v,
                None => (r matches Err(m) && m@ == "Failed to find value for '"@ + a@ + "'"@)
                    && final(state).build_bucket == old(state).build_bucket,
            },
            Tok::Literal(s) => r is Ok && final(state).build_bucket@ == s@,
            _ => (r matches Err(m) && m@
                == "Unexpected input to set_build_bucket. Must provide either constant, or a string literal"@)
                && final(state).build_bucket == old(state).build_bucket,
        },
{
    if item.len() == 0 {
        return Err(to_string("must provide bucket to set_build_bukcet"));
    }
    match &item[0] {
        Tok::Ident(a) => match state.loaded_consts.get_const(a.as_str()) {
            Some(v) => {
                state.build_bucket = v;
                Ok(())
            },
            None => Err(concat3("Failed to find value for '", a.as_str(), "'")),
        },
        Tok::Literal(s) => {
            state.build_bucket = s.clone();
            Ok(())
        },
        _ => Err(
            to_string(
                "Unexpected input to set_build_bucket. Must provide either constant, or a string literal",
            ),
        ),
    }
}

/// `set_deploy_region!("region")`: a literal sets the region as written; anything else
/// changes nothing.
pub fn set_deploy_region_macro(item: &Vec<Tok>, state: &mut DeployState) -> (r: Result<(), String>)
    ensures
        final(state).build_bucket == old(state).build_bucket,
        final(state).loaded_consts == old(state).loaded_consts,
        item@.len() == 0 ==> (r matches Err(m) && m@ == "must provide bucket to set_build_bukcet"@)
            && final(state).deploy_region == old(state).deploy_region,
        item@.len() > 0 ==> r is Ok && match item@[0] {
            Tok::Literal(s) => final(state).deploy_region matches Ok(x) && x@ == s@,
            _ => final(state).deploy_region == old(state).deploy_region,
        },
{
    if item.len() == 0 {
        return Err(to_string("must provide bucket to set_build_bukcet"));
    }
    if let Tok::Literal(s) = &item[0] {
        state.deploy_region = Ok(s.clone());
    }
    Ok(())
}

/// `set_stack_name!("name")`: a literal sets the stack's name as written; anything else
/// changes nothing.
pub fn set_stack_name(item: &Vec<Tok>, state: &mut DeployState) -> (r: Result<(), String>)
    ensures
        final(state).build_bucket == old(state).build_bucket,
        final(state).deploy_region == old(state).deploy_region,
        item@.len() == 0 ==> (r matches Err(m) && m@ == "must provide stack name to set_stack_name"@)
            && final(state).stack_name == old(state).stack_name,
        item@.len() > 0 ==> r is Ok && match item@[0] {
            Tok::Literal(s) => final(state).stack_name@ == s@,
            _ => final(state).stack_name == old(state).stack_name,
        },
{
    if item.len() == 0 {
        return Err(to_string("must provide stack name to set_stack_name"));
    }
    if let Tok::Literal(s) = &item[0] {
        state.stack_name = s.clone();
    }
    Ok(())
}

/// `load_dot_env!("path")`: the path of the `.env` file to load, the literal as written.
pub fn load_dot_env_path(item: &Vec<Tok>) -> (r: Result<String, String>)
    ensures
        item@.len() == 0 ==> (r matches Err(m) && m@
            == "must provide a string literal path to a .env file"@),
        item@.len() > 0 ==> match item@[0] {
            Tok::Literal(s) => r matches Ok(p) && p@ == s@,
            _ => r matches Err(m) && m@ == "load_dot_env only accepts a string literal"@,
        },
{
    if item.len() == 0 {
        return Err(to_string("must provide a string literal path to a .env file"));
    }
    match &item[0] {
        Tok::Literal(s) => Ok(s.clone()),
        _ => Err(to_string("load_dot_env only accepts a string literal")),
    }
}

/// The code that `close!()` leaves: an empty `main` on the first pass (no `RUSTFLAGS`),
/// when the deploy script and template are written; nothing on later passes.
pub fn close_code(rustflags_set: bool) -> (r: &'static str)
    ensures
        !rustflags_set ==> r@ == "fn main() {}"@,
        rustflags_set ==> r@ == ""@,
{
    if rustflags_set {
        ""
    } else {
        "fn main() {}"
    }
}

// ---------------------------------------------------------------- resource macros

/// The region to deploy to, as the state holds it.
pub open spec fn region_text(s: DeployState) -> Seq<char> {
    match s.deploy_region {
        Ok(x) => x@,
        Err(x) => x@,
    }
}

/// The macros that `create_static_website` expands to for an attribute stream: a bucket
/// `hiragen<url>` (without `.`, `-` and `_`) serving the website, a distribution in front of
/// it with the certificate, and a DNS record for the url.
pub open spec fn static_website_outcome(
    attr: Seq<Tok>,
    consts: Seq<(String, String)>,
    region: Seq<char>,
) -> Option<Seq<char>> {
    match parse_attr_stream(attr, consts) {
        Ok(a) => match static_website_from_attr(a) {
            Some(p) => {
                let b = without_chars("hiragen"@ + p.0, ".-_"@);
                let reg = strip_one_quote_pair(region);
                Some(
                    static_website_text(
                        b,
                        b + ".s3-website-"@ + reg + ".amazonaws.com"@,
                        p.0,
                        p.1,
                        "CDN"@ + b,
                    ),
                )
            },
            None => None,
        },
        Err(_) => None,
    }
}

/// `create_static_website`: the code it expands to (see `static_website_outcome`).
pub fn create_static_website(attr: Vec<Tok>, state: &DeployState) -> (r: Result<String, MacroError>)
    ensures
        match static_website_outcome(attr@, state.loaded_consts.entries@, region_text(*state)) {
            Some(t) => r matches Ok(x) && x@ == t,
            None => r is Err,
        },
{
    let value = match try_parse_attributes(&attr, &state.loaded_consts) {
        Ok(v) => v,
        Err(e) => {
            return Err(MacroError::Attribute(e));
        },
    };
    let conf = match StaticWebsite::from_attribute(value) {
        Ok(c) => c,
        Err(e) => {
            return Err(MacroError::Resource(e));
        },
    };
    let name = concat3("hiragen", conf.url.as_str(), "");
    let bucket_name = remove_chars(name.as_str(), ".-_");
    let region = match &state.deploy_region {
        Ok(x) => strip_quote_pair(x.as_str()),
        Err(x) => strip_quote_pair(x.as_str()),
    };
    let mut bucket_domain = concat3(bucket_name.as_str(), ".s3-website-", region.as_str());
    bucket_domain.append(".amazonaws.com");
    let cdn_resource_name = concat3("CDN", bucket_name.as_str(), "");
    proof {
        reveal_strlit("");
        assert("hiragen"@ + conf.url@ + ""@ =~= "hiragen"@ + conf.url@);
        assert("CDN"@ + bucket_name@ + ""@ =~= "CDN"@ + bucket_name@);
    }
    Ok(
        static_website_text_string(
            bucket_name.as_str(),
            bucket_domain.as_str(),
            conf.url.as_str(),
            conf.acm_arn.as_str(),
            cdn_resource_name.as_str(),
        ),
    )
}

/// What `create_s3` gives back: the module, the code to add inside it, and the code to
/// put after it.
pub struct S3MacroCode {
    pub module: ModDef,
    pub body_additions: Vec<String>,
    pub after: Vec<String>,
}

/// Whether the token matches the `k`th token of `pub async fn _init()`.
pub open spec fn init_tok_matches(t: Tok, k: int) -> bool {
    if k == 0 {
        is_ident_text(t, "pub"@)
    } else if k == 1 {
        is_ident_text(t, "async"@)
    } else if k == 2 {
        is_ident_text(t, "fn"@)
    } else if k == 3 {
        is_ident_text(t, "_init"@)
    } else {
        is_group_with(t, Delim::Parenthesis)
    }
}

/// `scan_for_tokens` with the pattern `pub async fn _init()`.
pub open spec fn scan_for_init(body: Seq<Tok>, i: int, m: int) -> bool
    decreases body.len() - i,
{
    if i < 0 || i >= body.len() || m < 0 || m >= 5 {
        false
    } else if init_tok_matches(body[i], m) {
        if m + 1 >= 5 {
            true
        } else {
            scan_for_init(body, i + 1, m + 1)
        }
    } else {
        scan_for_init(body, i + 1, 0)
    }
}

/// Whether the body of the module holds `pub async fn _init()`.
pub open spec fn module_has_init(m: ModDef) -> bool {
    match m.mod_body {
        Tok::Group(_, children, _) => scan_for_init(children@, 0, 0),
        _ => false,
    }
}

fn init_pattern() -> (p: Vec<Tok>)
    ensures
        p@.len() == 5,
        forall|t: Tok, k: int|
            0 <= k < 5 ==> (#[trigger] token_match_text(t, p@[k], false) is Some <==> init_tok_matches(t, k)),
{
    let p = vec![
        crate::tokens::expect_ident("pub"),
        crate::tokens::expect_ident("async"),
        crate::tokens::expect_ident("fn"),
        crate::tokens::expect_ident("_init"),
        crate::tokens::expect_group(Delim::Parenthesis),
    ];
    p
}

proof fn lemma_scan_init(body: Seq<Tok>, p: Seq<Tok>, i: int, m: int)
    requires
        p.len() == 5,
        forall|t: Tok, k: int|
            0 <= k < 5 ==> (#[trigger] token_match_text(t, p[k], false) is Some <==> init_tok_matches(t, k)),
    ensures
        scan_for_tokens(body, p, i, m) == scan_for_init(body, i, m),
    decreases body.len() - i,
{
    if !(i < 0 || i >= body.len() || m < 0 || m >= 5) {
        assert(token_match_text(body[i], p[m], false) is Some <==> init_tok_matches(body[i], m));
        lemma_scan_init(body, p, i + 1, m + 1);
        lemma_scan_init(body, p, i + 1, 0);
    }
}

/// How `create_s3` turns out: the module read from the item, the bucket read from the
/// attribute, whether the module has `_init`, and the region.
pub open spec fn s3_macro_ok(
    c: S3MacroCode,
    item: Seq<Tok>,
    b: crate::resources::S3BucketV,
    first: bool,
    region: Seq<char>,
) -> bool {
    let init = module_has_init(c.module);
    &&& mod_shape(item) matches Some(has_pub) && mod_def_matches(c.module, item, has_pub)
    &&& c.module.mod_name_ident is Ident
    &&& strings_view(c.body_additions@) == seq![
        "use super::make_s3_client;"@,
        s3_object_fns_text(b.name),
    ]
    &&& strings_view(c.after@) == (if init {
        seq![s3_init_main_text(c.module.mod_name_ident->Ident_0@)]
    } else {
        Seq::empty()
    }) + (if first {
        seq![s3_client_fn_text(region)]
    } else {
        Seq::empty()
    })
}

/// `create_s3`: reads the module and the bucket; adds the bucket's resource, and the step
/// that runs the module's `_init` after deployment when it has one. The client function is
/// put after the first bucket's module only.
pub fn create_s3(attr: Vec<Tok>, item: Vec<Tok>, state: &mut DeployState) -> (r: Result<
    S3MacroCode,
    MacroError,
>)
    ensures
        final(state).loaded_consts == old(state).loaded_consts,
        final(state).build_commands == old(state).build_commands,
        final(state).build_bucket == old(state).build_bucket,
        final(state).deploy_region == old(state).deploy_region,
        final(state).created_lambda == old(state).created_lambda,
        mod_shape(item@) is None ==> r is Err,
        match parse_attr_stream(attr@, old(state).loaded_consts.entries@) {
            Ok(a) => s3_from_attr(a) is None ==> r is Err,
            Err(_) => r is Err,
        },
        (mod_shape(item@) is Some && (parse_attr_stream(attr@, old(state).loaded_consts.entries@)
            matches Ok(a) && s3_from_attr(a) is Some)) ==> r is Ok,
        r is Err ==> final(state).resources == old(state).resources && final(state).post_commands
            == old(state).post_commands && final(state).created_s3 == old(state).created_s3,
        r matches Ok(c) ==> (parse_attr_stream(attr@, old(state).loaded_consts.entries@) matches Ok(
            a,
        ) && s3_from_attr(a) matches Some(b) && s3_macro_ok(
            c,
            item@,
            b,
            !old(state).created_s3,
            region_text(*old(state)),
        ) && final(state).created_s3 && strings_view(final(state).resources@) == strings_view(
            old(state).resources@,
        ).push(s3_resource_text(b)) && strings_view(final(state).post_commands@) == strings_view(
            old(state).post_commands@,
        ) + (if module_has_init(c.module) {
            seq![
                s3_init_cmd_text(
                    region_text(*old(state)),
                    c.module.mod_name_ident->Ident_0@,
                ),
            ]
        } else {
            Seq::empty()
        })),
{
    let module = match parse_mod_def_safe(item) {
        Ok(m) => m,
        Err(e) => {
            return Err(MacroError::Parse(e));
        },
    };
    let value = match try_parse_attributes(&attr, &state.loaded_consts) {
        Ok(v) => v,
        Err(e) => {
            return Err(MacroError::Attribute(e));
        },
    };
    let conf = match S3Bucket::from_attribute(value) {
        Ok(c) => c,
        Err(e) => {
            return Err(MacroError::Resource(e));
        },
    };
    let first = !state.created_s3;
    state.created_s3 = true;
    let region = match &state.deploy_region {
        Ok(x) => x.clone(),
        Err(x) => x.clone(),
    };
    let pat = init_pattern();
    let invokes_init = module.contains_tokens(pat);
    proof {
        if module.mod_body is Group {
            lemma_scan_init(module.mod_body->Group_1@, pat@, 0, 0);
        }
    }
    let mut body_additions: Vec<String> = Vec::new();
    body_additions.push(to_string("use super::make_s3_client;"));
    body_additions.push(s3_object_fns_text_string(conf.name.as_str()));
    let module_name = module.get_module_name();
    let mut after: Vec<String> = Vec::new();
    let ghost before_post = strings_view(state.post_commands@);
    if invokes_init {
        after.push(s3_init_main_text_string(module_name.as_str()));
        let cmd = s3_init_cmd_text_string(region.as_str(), module_name.as_str());
        state.post_commands.push(cmd);
    }
    if first {
        after.push(s3_client_fn_text_string(region.as_str()));
    }
    let ghost before_res = strings_view(state.resources@);
    let text = add_s3_bucket_resource(&conf);
    state.resources.push(text);
    proof {
        assert(strings_view(state.resources@) =~= before_res.push(s3_resource_text(s3_view(conf))));
        if invokes_init {
            assert(strings_view(state.post_commands@) =~= before_post + seq![
                s3_init_cmd_text(region@, module_name@),
            ]);
        } else {
            assert(strings_view(state.post_commands@) =~= before_post + Seq::<Seq<char>>::empty());
        }
        assert(strings_view(body_additions@) =~= seq![
            "use super::make_s3_client;"@,
            s3_object_fns_text(conf.name@),
        ]);
        let e = Seq::<Seq<char>>::empty();
        if invokes_init {
            if first {
                assert(strings_view(after@) =~= seq![s3_init_main_text(module_name@)] + seq![
                    s3_client_fn_text(region@),
                ]);
            } else {
                assert(strings_view(after@) =~= seq![s3_init_main_text(module_name@)] + e);
            }
        } else {
            if first {
                assert(strings_view(after@) =~= e + seq![s3_client_fn_text(region@)]);
            } else {
                assert(strings_view(after@) =~= e + e);
            }
        }
    }
    Ok(S3MacroCode { module, body_additions, after })
}

// ---------------------------------------------------------------- lambdas

/// What `create_lambda` gives back: the user's function renamed `actual_<name>`, and the
/// code that runs it as a lambda and invokes it from elsewhere.
pub struct LambdaMacroCode {
    pub function: Vec<Tok>,
    pub prototype: String,
    pub main: String,
    /// the function that makes the client, for the first lambda of the crate only
    pub client: Option<String>,
    pub invoke_safe: String,
    pub invoke: String,
}

/// The tokens of a function definition with the given name token.
pub open spec fn fn_tokens(d: FuncDef, name: Tok) -> Seq<Tok> {
    opt_toks(d.fn_pub_ident) + opt_toks(d.fn_const_ident) + opt_toks(d.fn_async_ident) + opt_toks(
        d.fn_unsafe_ident,
    ) + seq![d.fn_ident, name, d.fn_params] + d.fn_return_punct@ + d.fn_return@ + seq![d.fn_body]
}

/// The return type of the service function and its body, from the user's return type.
pub open spec fn lambda_use(ret: Seq<char>, renamed: Seq<char>) -> (Seq<char>, Seq<char>) {
    if seq_starts_with(ret, "Result"@) {
        (ret, "let (x, _context) = event.into_parts(); "@ + renamed + "(x).await"@)
    } else if ret.len() == 0 {
        ("Result<(), lambda_runtime::Error>"@, "Ok("@ + renamed + "().await)"@)
    } else {
        (
            "Result<"@ + ret + ", lambda_runtime::Error>"@,
            "let (x, _context) = event.into_parts(); Ok("@ + renamed + "(x).await)"@,
        )
    }
}

/// The target that lambdas are built for.
pub open spec fn lambda_target() -> Seq<char> {
    "aarch64-unknown-linux-musl"@
}

/// The build steps of a lambda: build, copy, hash, zip, move, clean up.
pub open spec fn lambda_build_steps(name: Seq<char>, bin: Seq<char>) -> Seq<Seq<char>> {
    seq![
        lambda_build_cmd_text(name, lambda_target()),
        lambda_copy_cmd_text(name, lambda_target(), bin),
        lambda_md5_cmd_text(name),
        lambda_zip_cmd_text(name),
        lambda_move_cmd_text(name),
        "rm bootstrap"@,
    ]
}

/// The code made for a lambda from its function definition.
pub open spec fn lambda_code_ok(c: LambdaMacroCode, d: FuncDef, first: bool, region: Seq<char>) -> bool {
    let name = d.fn_name->Ident_0@;
    let renamed = "actual_"@ + name;
    let ret = toks_text(d.fn_return@);
    let use_type = params_of(d.fn_params)->Some_0[0].1;
    let u = lambda_use(ret, renamed);
    &&& exists|t: Tok| t matches Tok::Ident(a) && a@ == renamed && c.function@ == #[trigger] fn_tokens(d, t)
    &&& c.prototype@ == lambda_prototype_text(name, use_type, u.0, u.1)
    &&& c.main@ == lambda_main_text(name)
    &&& (first ==> (c.client matches Some(x) && x@ == lambda_client_fn_text(region)))
    &&& (!first ==> c.client is None)
    &&& c.invoke_safe@ == lambda_invoke_safe_text(name, use_type, ret)
    &&& c.invoke@ == lambda_invoke_text(name, use_type, ret)
}

/// Whether a function definition can be a lambda: one parameter, `async`, not `const`.
pub open spec fn lambda_def_ok(d: FuncDef) -> bool {
    &&& params_of(d.fn_params) matches Some(ps) && ps.len() == 1
    &&& d.fn_async_ident is Some
    &&& d.fn_const_ident is None
}

/// `create_lambda` on a function definition already read: see `create_lambda`.
pub fn create_lambda_from_def(
    conf: LambdaFunction,
    d: FuncDef,
    bin_name: &str,
    state: &mut DeployState,
) -> (r: Result<LambdaMacroCode, MacroError>)
    requires
        d.fn_name is Ident,
        d.params@.len() == 0,
    ensures
        final(state).loaded_consts == old(state).loaded_consts,
        final(state).build_bucket == old(state).build_bucket,
        final(state).deploy_region == old(state).deploy_region,
        final(state).created_s3 == old(state).created_s3,
        final(state).post_commands == old(state).post_commands,
        (r is Ok) == (bin_name@.len() > 0 && lambda_def_ok(d) && old(state).build_bucket@.len() > 0),
        r is Err ==> final(state).build_commands == old(state).build_commands
            && final(state).parameter_values == old(state).parameter_values && final(state).resources
            == old(state).resources && final(state).created_lambda == old(state).created_lambda,
        r matches Ok(c) ==> {
            let name = d.fn_name->Ident_0@;
            &&& lambda_code_ok(c, d, !old(state).created_lambda, region_text(*old(state)))
            &&& final(state).created_lambda
            &&& strings_view(final(state).build_commands@) == strings_view(
                old(state).build_commands@,
            ) + lambda_build_steps(name, bin_name@)
            &&& pair_views(final(state).parameter_values@) == pair_views(
                old(state).parameter_values@,
            ).push((without_char("Param"@ + name + "Hash"@, '_'), lambda_zip_name_text(name)))
            &&& strings_view(final(state).resources@) == strings_view(old(state).resources@).push(
                lambda_resource_text(old(state).build_bucket@, name, lambda_view(conf)),
            )
        },
{
    let mut d = d;
    if bin_name.unicode_len() == 0 {
        return Err(MacroError::NotBinary);
    }
    let ps = match parse_params(&d.fn_params) {
        Some(v) => v,
        None => {
            return Err(MacroError::BadParams);
        },
    };
    if ps.len() != 1 {
        return Err(MacroError::ParamCount(ps.len()));
    }
    if d.fn_async_ident.is_none() {
        return Err(MacroError::NotAsync);
    }
    if d.fn_const_ident.is_some() {
        return Err(MacroError::ConstAndAsync);
    }
    if state.build_bucket.as_str().unicode_len() == 0 {
        return Err(MacroError::NoBuildBucket);
    }
    let ghost d0 = d;
    let ret_type = d.get_return_type();
    let func_name = d.get_func_name();
    let renamed = concat3("actual_", func_name.as_str(), "");
    let (_, use_type) = d.get_nth_param(0);
    d.set_func_name(renamed.as_str());
    proof {
        reveal_strlit("");
        assert("actual_"@ + func_name@ + ""@ =~= "actual_"@ + func_name@);
    }
    let (use_ret, use_body) = if starts_with(ret_type.as_str(), "Result") {
        let mut b = concat3("let (x, _context) = event.into_parts(); ", renamed.as_str(), "(x)");
        b.append(".await");
        proof {
            assert("let (x, _context) = event.into_parts(); "@ + renamed@ + "(x)"@ + ".await"@
                =~= "let (x, _context) = event.into_parts(); "@ + renamed@ + "(x).await"@) by {
                reveal_strlit("(x)");
                reveal_strlit(".await");
                reveal_strlit("(x).await");
            }
        }
        (ret_type.clone(), b)
    } else if ret_type.as_str().unicode_len() == 0 {
        let mut b = concat3("Ok(", renamed.as_str(), "()");
        b.append(".await)");
        proof {
            assert("Ok("@ + renamed@ + "()"@ + ".await)"@ =~= "Ok("@ + renamed@ + "().await)"@) by {
                reveal_strlit("()");
                reveal_strlit(".await)");
                reveal_strlit("().await)");
            }
        }
        (to_string("Result<(), lambda_runtime::Error>"), b)
    } else {
        let r = concat3("Result<", ret_type.as_str(), ", lambda_runtime::Error>");
        let mut b = concat3("let (x, _context) = event.into_parts(); Ok(", renamed.as_str(), "(x)");
        b.append(".await)");
        proof {
            assert("let (x, _context) = event.into_parts(); Ok("@ + renamed@ + "(x)"@ + ".await)"@
                =~= "let (x, _context) = event.into_parts(); Ok("@ + renamed@ + "(x).await)"@) by {
                reveal_strlit("(x)");
                reveal_strlit(".await)");
                reveal_strlit("(x).await)");
            }
        }
        (r, b)
    };
    let region = match &state.deploy_region {
        Ok(x) => x.clone(),
        Err(x) => x.clone(),
    };
    let first = !state.created_lambda;
    let client = if first {
        Some(lambda_client_fn_text_string(region.as_str()))
    } else {
        None
    };
    let prototype = lambda_prototype_text_string(
        func_name.as_str(),
        use_type.as_str(),
        use_ret.as_str(),
        use_body.as_str(),
    );
    let main = lambda_main_text_string(func_name.as_str());
    let invoke_safe = lambda_invoke_safe_text_string(
        func_name.as_str(),
        use_type.as_str(),
        ret_type.as_str(),
    );
    let invoke = lambda_invoke_text_string(func_name.as_str(), use_type.as_str(), ret_type.as_str());
    let ghost name_tok = d.fn_name;
    let ghost d1 = d;
    let function = d.build();
    proof {
        assert(function@ =~= fn_tokens(d0, name_tok));
    }
    state.created_lambda = true;
    let target = "aarch64-unknown-linux-musl";
    let ghost before_cmds = strings_view(state.build_commands@);
    state.build_commands.push(lambda_build_cmd_text_string(func_name.as_str(), target));
    state.build_commands.push(lambda_copy_cmd_text_string(func_name.as_str(), target, bin_name));
    state.build_commands.push(lambda_md5_cmd_text_string(func_name.as_str()));
    state.build_commands.push(lambda_zip_cmd_text_string(func_name.as_str()));
    let param = concat3("Param", func_name.as_str(), "Hash");
    let param_name = remove_char(param.as_str(), '_');
    let zip_name = lambda_zip_name_text_string(func_name.as_str());
    let ghost before_params = pair_views(state.parameter_values@);
    state.parameter_values.push((param_name, zip_name));
    state.build_commands.push(lambda_move_cmd_text_string(func_name.as_str()));
    state.build_commands.push(to_string("rm bootstrap"));
    let ghost before_res = strings_view(state.resources@);
    let text = add_lambda_resource(state.build_bucket.as_str(), func_name.as_str(), &conf);
    state.resources.push(text);
    proof {
        assert(strings_view(state.build_commands@) =~= before_cmds + lambda_build_steps(
            func_name@,
            bin_name@,
        ));
        assert(pair_views(state.parameter_values@) =~= before_params.push(
            (without_char("Param"@ + func_name@ + "Hash"@, '_'), lambda_zip_name_text(func_name@)),
        ));
        assert(strings_view(state.resources@) =~= before_res.push(
            lambda_resource_text(state.build_bucket@, func_name@, lambda_view(conf)),
        ));
    }
    Ok(LambdaMacroCode { function, prototype, main, client, invoke_safe, invoke })
}

/// `create_lambda`: reads the function from the attribute and the item, then makes the
/// lambda (see `create_lambda_from_def`); the binary's name comes from the build.
pub fn create_lambda(attr: Vec<Tok>, item: Vec<Tok>, bin_name: &str, state: &mut DeployState) -> (r:
    Result<LambdaMacroCode, MacroError>)
    ensures
        final(state).loaded_consts == old(state).loaded_consts,
        final(state).build_bucket == old(state).build_bucket,
        final(state).deploy_region == old(state).deploy_region,
        match parse_attr_stream(attr@, old(state).loaded_consts.entries@) {
            Ok(a) => lambda_from_attr(a) is None ==> r is Err,
            Err(_) => r is Err,
        },
        fn_shape(item@) is None ==> r is Err,
        ({
            &&& parse_attr_stream(attr@, old(state).loaded_consts.entries@) matches Ok(a)
                && lambda_from_attr(a) is Some
            &&& bin_name@.len() > 0
            &&& fn_shape(item@) matches Some(sh) && forall|d: FuncDef|
                #[trigger] fn_def_matches(d, item@, sh) ==> lambda_def_ok(d)
            &&& old(state).build_bucket@.len() > 0
        }) ==> r is Ok,
        r is Ok ==> bin_name@.len() > 0 && old(state).build_bucket@.len() > 0,
        r is Err ==> final(state).build_commands == old(state).build_commands
            && final(state).parameter_values == old(state).parameter_values && final(state).resources
            == old(state).resources,
        r matches Ok(c) ==> exists|d: FuncDef|
            #![trigger lambda_def_ok(d)]
            {
                &&& fn_shape(item@) matches Some(sh) && fn_def_matches(d, item@, sh)
                &&& lambda_def_ok(d)
                &&& lambda_code_ok(c, d, !old(state).created_lambda, region_text(*old(state)))
                &&& final(state).created_lambda
                &&& strings_view(final(state).build_commands@) == strings_view(
                    old(state).build_commands@,
                ) + lambda_build_steps(d.fn_name->Ident_0@, bin_name@)
                &&& parse_attr_stream(attr@, old(state).loaded_consts.entries@) matches Ok(a)
                    && lambda_from_attr(a) matches Some(f) && strings_view(final(state).resources@)
                    == strings_view(old(state).resources@).push(
                    lambda_resource_text(old(state).build_bucket@, d.fn_name->Ident_0@, f),
                )
            },
{
    let value = match try_parse_attributes(&attr, &state.loaded_consts) {
        Ok(v) => v,
        Err(e) => {
            return Err(MacroError::Attribute(e));
        },
    };
    let conf = match LambdaFunction::from_attribute(value) {
        Ok(c) => c,
        Err(e) => {
            return Err(MacroError::Resource(e));
        },
    };
    if bin_name.unicode_len() == 0 {
        return Err(MacroError::NotBinary);
    }
    let d = match parse_func_def_safe(item, false) {
        Ok(d) => d,
        Err(e) => {
            return Err(MacroError::Parse(e));
        },
    };
    let ghost dd = d;
    let r = create_lambda_from_def(conf, d, bin_name, state);
    proof {
        if r is Ok {
            assert(lambda_def_ok(dd));
        }
    }
    r
}

/// The DNS record that `create_static_website` makes points at the distribution it makes:
/// its alias target is `CDN` followed by the name that the distribution is given, a name
/// without `_`, as the distribution's resource is named.
pub proof fn law_static_website_dns_target(attr: Seq<Tok>, consts: Seq<(String, String)>, region: Seq<char>)
    requires
        static_website_outcome(attr, consts, region) is Some,
    ensures
        exists|n: Seq<char>|
            {
                &&& !n.contains('_')
                &&& seq_contains_run(
                    static_website_outcome(attr, consts, region)->Some_0,
                    "}],\n    name: \""@ + n + "\",\n    aliases:"@,
                )
                &&& #[trigger] seq_contains_run(
                    static_website_outcome(attr, consts, region)->Some_0,
                    "alias_target_dns_name: \"!GetAtt "@ + ("CDN"@ + n) + ".DomainName\""@,
                )
            },
{
    let a = parse_attr_stream(attr, consts)->Ok_0;
    let p = static_website_from_attr(a)->Some_0;
    let b = without_chars("hiragen"@ + p.0, ".-_"@);
    let reg = strip_one_quote_pair(region);
    let dom = b + ".s3-website-"@ + reg + ".amazonaws.com"@;
    let t = static_website_outcome(attr, consts, region)->Some_0;
    assert(t == static_website_text(b, dom, p.0, p.1, "CDN"@ + b));
    reveal_strlit("\",\n    }],\n    name: \"");
    reveal_strlit("\",\n    aliases: [\"");
    reveal_strlit("\",\n    alias_target_dns_name: \"!GetAtt ");
    reveal_strlit(".DomainName\",\n    alias_target_hosted_zone_id: \"Z2FDTNDATAQYW2\",\n})]\npub mod my_record {}");
    reveal_strlit("}],\n    name: \"");
    reveal_strlit("\",\n    aliases:");
    reveal_strlit("alias_target_dns_name: \"!GetAtt ");
    reveal_strlit(".DomainName\"");
    let l2 = "\",\n    }],\n    name: \""@;
    let l3 = "\",\n    aliases: [\""@;
    let l6 = "\",\n    alias_target_dns_name: \"!GetAtt "@;
    let l7 = ".DomainName\",\n    alias_target_hosted_zone_id: \"Z2FDTNDATAQYW2\",\n})]\npub mod my_record {}"@;
    let x1 = "}],\n    name: \""@;
    let y1 = "\",\n    aliases:"@;
    let x2 = "alias_target_dns_name: \"!GetAtt "@;
    let y2 = ".DomainName\""@;
    assert(seq_ends_with(l2, x1)) by {
        assert(l2.subrange(l2.len() - x1.len(), l2.len() as int) =~= x1);
    }
    assert(seq_starts_with(l3, y1)) by {
        assert(l3.subrange(0, y1.len() as int) =~= y1);
    }
    assert(seq_ends_with(l6, x2)) by {
        assert(l6.subrange(l6.len() - x2.len(), l6.len() as int) =~= x2);
    }
    assert(seq_starts_with(l7, y2)) by {
        assert(l7.subrange(0, y2.len() as int) =~= y2);
    }
    reveal_strlit(".-_");
    assert(".-_"@[2] == '_');
    lemma_without_chars_drops(("hiragen"@ + p.0), ".-_"@, '_');
    let pre1 = "\n#[hira::create_s3({\n    name: \""@ + b + "\",\n    public_website: {},\n})]\npub mod my_website_bucket {}\n\n#[hira::create_cloudfront_distribution({\n    origins_and_behaviors: [{\n        domain_name: \""@ + dom;
    lemma_ends_with_concat(pre1, l2, x1);
    lemma_run_across(pre1 + l2, b, l3, x1, y1);
    let pre2 = pre1 + l2 + b + l3 + p.0 + "\"],\n    acm_certificate_arn: \""@ + p.1 + "\",\n})]\npub mod my_cdn {}\n\n\n#[hira::create_route53_record({\n    record_type: \"A\",\n    name: \""@ + p.0;
    lemma_ends_with_concat(pre2, l6, x2);
    lemma_run_across(pre2 + l6, "CDN"@ + b, l7, x2, y2);
    lemma_runs_in_concats();
    assert(seq_contains_run(t, x1 + b + y1));
    assert(seq_contains_run(t, x2 + ("CDN"@ + b) + y2));
}

proof fn lemma_without_chars_drops(s: Seq<char>, cs: Seq<char>, c: char)
    requires
        cs.contains(c),
    ensures
        !without_chars(s, cs).contains(c),
    decreases s.len(),
{
    if s.len() > 0 {
        lemma_without_chars_drops(s.drop_last(), cs, c);
        let r = without_chars(s.drop_last(), cs);
        if !cs.contains(s.last()) {
            assert(s.last() != c);
            if r.push(s.last()).contains(c) {
                let k = choose|k: int| 0 <= k < r.push(s.last()).len() && r.push(s.last())[k] == c;
                if k < r.len() {
                    assert(r[k] == c);
                }
            }
        }
    }
}

} // verus!
