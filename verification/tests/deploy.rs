use hira::deploy::{parse_dot_env, DeployState};

#[test]
fn dot_env_lines_are_read() {
    let m = parse_dot_env("# comment\nA=1\r\n\nB=x=y\nnoequals\nA=2");
    assert_eq!(m.get("A"), Some("2".to_string()));
    assert_eq!(m.get("B"), Some("x=y".to_string()));
    assert_eq!(m.get("noequals"), None);
    assert_eq!(m.get("# comment"), None);
    let empty = parse_dot_env("");
    assert_eq!(empty.entries.len(), 0);
}

#[test]
fn deploy_region_defaults_to_us_east_1() {
    let mut st = DeployState::new();
    assert_eq!(st.get_deploy_region(), "us-east-1");
    st.set_deploy_region("eu-west-1");
    assert_eq!(st.get_deploy_region(), "eu-west-1");
}

#[test]
fn deployment_file_lists_every_step() {
    let mut st = DeployState::new();
    st.add_build_cmd("make");
    st.add_package_cmd("pack");
    st.add_deploy_cmd("dep");
    st.add_post_cmd("post");
    st.add_param_value("P", "v");
    st.build_bucket = "bkt".to_string();
    let text = st.output_deployment_file(Some("app")).unwrap();
    assert_eq!(
        text,
        "#!/usr/bin/env bash\n\n# build:\nrm -rf ./hira/out/\nmake\n\n# package:\naws s3 sync --size-only ./hira/out/ s3://bktpack\n\n# deploy:\nAWS_REGION=us-east-1 aws --region us-east-1 cloudformation deploy --stack-name app --template-file ./hira/deploy.yml --capabilities CAPABILITY_NAMED_IAM --parameter-overrides P=v dep\n\n# post-deploy:\npost\n"
    );
    let none = DeployState::new().output_deployment_file(None);
    assert_eq!(none, Err("No stack name provided, and failed to use cargo bin name as stack name".to_string()));
}

#[test]
fn template_lists_parameters_and_resources() {
    let mut st = DeployState::new();
    assert_eq!(st.output_cloudformation_yml(), "AWSTemplateFormatVersion: '2010-09-09'\nResources:\n");
    st.add_param_value("Key", "v");
    st.resources.push("    R:\n        Type: X".to_string());
    assert_eq!(
        st.output_cloudformation_yml(),
        "AWSTemplateFormatVersion: '2010-09-09'\nParameters:\n    Key:\n        Type: String\nResources:\n    R:\n        Type: X\n"
    );
}

use std::str::FromStr;

use hira::deploy_macros::{
    close_code, const_from, const_from_dot_env, const_from_dot_env_or_default, create_s3, load_dot_env_path,
    secret_from_dot_env, set_build_bucket, set_deploy_region_macro, set_stack_name,
};
use hira::tokens::{Delim, Tok};

fn to_tok(t: proc_macro2::TokenTree) -> Tok {
    match t {
        proc_macro2::TokenTree::Ident(i) => Tok::Ident(i.to_string()),
        proc_macro2::TokenTree::Punct(p) => Tok::Punct(p.as_char(), p.spacing() == proc_macro2::Spacing::Joint),
        proc_macro2::TokenTree::Literal(l) => Tok::Literal(l.to_string()),
        proc_macro2::TokenTree::Group(g) => {
            let d = match g.delimiter() {
                proc_macro2::Delimiter::Parenthesis => Delim::Parenthesis,
                proc_macro2::Delimiter::Brace => Delim::Brace,
                proc_macro2::Delimiter::Bracket => Delim::Bracket,
                proc_macro2::Delimiter::None => Delim::NoDelim,
            };
            let text = g.to_string();
            Tok::Group(d, g.stream().into_iter().map(to_tok).collect(), text)
        }
    }
}

fn toks(s: &str) -> Vec<Tok> {
    proc_macro2::TokenStream::from_str(s).unwrap().into_iter().map(to_tok).collect()
}

#[test]
fn constants_are_declared_and_remembered() {
    let mut st = DeployState::new();
    assert_eq!(const_from(&toks("BUCKET, \"my-bucket\""), &mut st), Ok("pub const BUCKET: &'static str = \"my-bucket\";".to_string()));
    assert_eq!(st.loaded_consts.get_const("BUCKET"), Some("my-bucket".to_string()));
    assert_eq!(const_from(&toks(""), &mut st), Err("must provide an identifier".to_string()));
    assert_eq!(const_from(&toks("\"x\", \"y\""), &mut st), Err("const_from first parameter must be an identifier".to_string()));
    assert_eq!(set_build_bucket(&toks("BUCKET"), &mut st), Ok(()));
    assert_eq!(st.build_bucket, "my-bucket");
    assert_eq!(set_build_bucket(&toks("NOPE"), &mut st), Err("Failed to find value for 'NOPE'".to_string()));
    assert_eq!(set_build_bucket(&toks(""), &mut st), Err("must provide bucket to set_build_bukcet".to_string()));
}

#[test]
fn dot_env_values_become_constants() {
    let mut st = DeployState::new();
    assert_eq!(const_from_dot_env(&toks("A"), &mut st), Err("Unexpected failure to read .env file".to_string()));
    st.dot_env = Some(parse_dot_env("A=1\nSECRET=s3cr3t"));
    assert_eq!(const_from_dot_env(&toks("A"), &mut st), Ok("pub const A: &'static str = \"1\";".to_string()));
    assert_eq!(const_from_dot_env(&toks("B"), &mut st), Err("Failed to find B in loaded .env file".to_string()));
    assert_eq!(const_from_dot_env(&toks("\"A\""), &mut st), Err("const_from_dot_env only accepts an identifier".to_string()));
    assert_eq!(secret_from_dot_env(&toks("SECRET"), &mut st), Ok(String::new()));
    assert_eq!(st.loaded_consts.get_const("SECRET"), Some("s3cr3t".to_string()));
    assert_eq!(
        const_from_dot_env_or_default(&toks("C, \"fallback\""), &mut st),
        Ok("pub const C: &'static str = \"fallback\";".to_string())
    );
    assert_eq!(
        const_from_dot_env_or_default(&toks("A, \"fallback\""), &mut st),
        Ok("pub const A: &'static str = \"1\";".to_string())
    );
}

#[test]
fn settings_macros_take_literals() {
    let mut st = DeployState::new();
    assert_eq!(set_deploy_region_macro(&toks("\"eu-west-1\""), &mut st), Ok(()));
    assert!(matches!(&st.deploy_region, Ok(s) if s == "\"eu-west-1\""));
    assert_eq!(set_stack_name(&toks("\"my-stack\""), &mut st), Ok(()));
    assert_eq!(st.stack_name, "\"my-stack\"");
    assert_eq!(set_stack_name(&toks(""), &mut st), Err("must provide stack name to set_stack_name".to_string()));
    assert_eq!(load_dot_env_path(&toks("\".env\"")), Ok("\".env\"".to_string()));
    assert_eq!(load_dot_env_path(&toks("x")), Err("load_dot_env only accepts a string literal".to_string()));
    assert_eq!(load_dot_env_path(&toks("")), Err("must provide a string literal path to a .env file".to_string()));
    assert_eq!(close_code(false), "fn main() {}");
    assert_eq!(close_code(true), "");
}

#[test]
fn buckets_get_a_client_once() {
    let mut st = DeployState::new();
    let first = create_s3(toks("{ name: \"mybucket\" }"), toks("pub mod things { pub async fn _init() {} }"), &mut st)
        .expect("bucket");
    assert_eq!(first.body_additions[0], "use super::make_s3_client;");
    assert_eq!(first.after.len(), 2);
    assert!(st.created_s3);
    assert_eq!(st.resources.len(), 1);
    let second = create_s3(toks("{ name: \"other\" }"), toks("mod more { }"), &mut st).expect("bucket");
    assert_eq!(second.after.len(), 0);
    assert_eq!(st.resources.len(), 2);
    assert!(create_s3(toks(""), toks("mod more { }"), &mut st).is_err());
    assert!(create_s3(toks("{ name: \"x\" }"), toks("fn notamodule() {}"), &mut st).is_err());
    assert_eq!(st.resources.len(), 2);
}
