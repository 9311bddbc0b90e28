use hira::level0::SharedOutputEntry;
use hira::registry::{CloudfrontInput, LambdaInput, MatchArm, S3Input, SqsInput};
use hira::registry_modules::{cloudfront, hira_awssqs, lambda, s3, LibraryObj, UserData};
use hira::level0::UserInput;

fn mptrn(s: &str) -> Option<String> {
    Some(s.to_string())
}

fn wild() -> Option<String> {
    None
}

fn assert_shared_file_contains_line(data: &Vec<SharedOutputEntry>, filename: &str, line: &str) {
    let mut contained = false;
    let mut file_contents = "".to_string();
    for entry in data.iter() {
        if entry.filename == filename {
            let mut file_line = entry.line.to_string();
            if let Some(after) = &entry.after {
                file_line.push_str(&after);
            }
            file_contents.push_str(&file_line);
            file_contents.push('\n');
            if file_line.contains(line) {
                contained = true;
            }
        }
    }
    if !contained {
        assert_eq!(file_contents, line);
    }
}

#[test]
fn cf_requires_2_tuple_input() {
    let cb = |_a: &mut CloudfrontInput| {};
    let mut obj = LibraryObj::new();
    obj.user_data = UserData::Match {
        expr: vec!["abc".to_string()],
        name: "".to_string(),
        is_pub: true,
        arms: vec![],
    };
    let _cfninput = cloudfront::wasm_entrypoint(&mut obj, cb);
    assert_eq!(obj.compiler_error_message, "this module expects the match statement expression to be a tuple of 2 strings");
    let mut obj = LibraryObj::new();
    obj.user_data = UserData::Match { expr: vec![], name: "".to_string(), is_pub: true, arms: vec![] };
    let _cfninput = cloudfront::wasm_entrypoint(&mut obj, cb);
    assert_eq!(obj.compiler_error_message, "this module expects the match statement expression to be a tuple of 2 strings");
    let mut obj = LibraryObj::new();
    obj.user_data = UserData::Match {
        expr: vec!["".to_string(), "path".to_string()],
        name: "".to_string(),
        is_pub: true,
        arms: vec![],
    };
    let _cfninput = cloudfront::wasm_entrypoint(&mut obj, cb);
    assert_eq!(obj.compiler_error_message, "");
}

#[test]
fn cf_groups_arms_by_domain() {
    let cb = |_a: &mut CloudfrontInput| {};
    let mut obj = LibraryObj::new();
    obj.user_data = UserData::Match {
        expr: vec!["example.com".to_string(), "path".to_string()],
        name: "".to_string(),
        is_pub: true,
        arms: vec![
            MatchArm { pattern: vec![mptrn("example.com"), wild()], expr: "dsa".to_string() },
            MatchArm { pattern: vec![mptrn("subdomain.example.com"), mptrn("/hi")], expr: "dsa".to_string() },
            MatchArm { pattern: vec![mptrn("subdomain.example.com"), mptrn("/world")], expr: "dsa".to_string() },
            MatchArm { pattern: vec![mptrn("subdomain.example.com"), wild()], expr: "dsa".to_string() },
        ],
    };
    let cfninput = cloudfront::wasm_entrypoint(&mut obj, cb);
    assert_eq!(cfninput.num_distributions, 2);
}

#[test]
fn cf_each_domain_must_have_wildcard() {
    let cb = |_a: &mut CloudfrontInput| {};
    let mut obj = LibraryObj::new();
    obj.user_data = UserData::Match {
        expr: vec!["example.com".to_string(), "path".to_string()],
        name: "".to_string(),
        is_pub: true,
        arms: vec![MatchArm { pattern: vec![mptrn("example.com"), mptrn("/hey")], expr: "dsa".to_string() }],
    };
    let _cfninput = cloudfront::wasm_entrypoint(&mut obj, cb);
    assert_eq!(obj.compiler_error_message, "Distribution for example.com is missing a default path '*'. Ensure one of your match arms has a wildcard '_' for the path component");
}

const HAPPY_PATH_DEFAULT: &'static str = r#"    Qmyqueue:
        Type: AWS::SQS::Queue
        Properties:
            DelaySeconds: 0
            MaximumMessageSize: 262144
            MessageRetentionPeriod: 345600
            QueueName: my_queue
            ReceiveMessageWaitTimeSeconds: 0
            SqsManagedSseEnabled: false
            VisibilityTimeout: 30"#;

#[test]
fn happy_path_works() {
    let cb = |_: &mut SqsInput| {};
    let mut obj = LibraryObj::new();
    obj.user_data = UserData::Module { name: "my_queue".into(), is_pub: true, append_to_body: vec![], body: "".to_string() };
    hira_awssqs::wasm_entrypoint(&mut obj, cb);
    assert!(obj.compiler_error_message.is_empty());
    assert_shared_file_contains_line(&obj.shared_output_data, "deploy.yml", HAPPY_PATH_DEFAULT);
}

#[test]
fn user_data_must_be_function() {
    let cb = |_a: &mut LambdaInput| {};
    let mut obj = LibraryObj::new();
    obj.user_data = UserData::Module { name: "".into(), is_pub: true, body: "".to_string(), append_to_body: vec![] };
    lambda::wasm_entrypoint(&mut obj, cb);
    assert_eq!(obj.compiler_error_message, "This module can only be applied to a function");
}

#[test]
fn validates_region() {
    let cb = |a: &mut LambdaInput| {
        a.region = "not-a-region".into();
    };
    let mut obj = LibraryObj::new();
    let user_input = UserInput { is_self: false, name: "hello".to_string(), ty: "String".to_string() };
    obj.user_data = UserData::Function { name: "".into(), is_pub: true, is_async: true, inputs: vec![user_input], return_ty: "String".into() };
    lambda::wasm_entrypoint(&mut obj, cb);
    assert!(obj.compiler_error_message.starts_with("Invalid region code"));
}

#[test]
fn outputs_properly_formatted_deployment_line() {
    let cb = |_: &mut LambdaInput| {};
    let mut obj = LibraryObj::new();
    let user_input = UserInput { is_self: false, name: "hello".to_string(), ty: "String".to_string() };
    obj.user_data = UserData::Function { name: "hello".into(), is_pub: true, is_async: true, inputs: vec![user_input], return_ty: "String".into() };
    lambda::wasm_entrypoint(&mut obj, cb);
    assert!(obj.compiler_error_message.is_empty());
    assert_shared_file_contains_line(&obj.shared_output_data, "deploy.sh", "AWS_REGION=\"us-west-2\" aws --region us-west-2 cloudformation deploy --stack-name hira-gen-stack --template-file deploy.yml --capabilities CAPABILITY_NAMED_IAM --parameter-overrides DefaultParam=hira ArtifactBuckethello=$artifactbucketnamehello ArtifactKeyhello=hello_$md5hello.zip");
}

#[test]
fn s3_gets_renamed_properly() {
    let cb = |_a: &mut S3Input| {};
    let mut obj = LibraryObj::new();
    obj.user_data = UserData::Module { name: "my_module".into(), is_pub: true, body: "".to_string(), append_to_body: vec![] };
    let s3input = s3::wasm_entrypoint(&mut obj, cb);
    assert_eq!(obj.compiler_error_message, "");
    assert_eq!(s3input.resource_name, "S3mymodule");
    // a hash suffix is added by default
    assert!(s3input.bucket_name.contains("-"));
}

#[test]
fn user_can_override_bucket_name() {
    let cb = |a: &mut S3Input| {
        a.bucket_name = "something-exact".to_string();
    };
    let mut obj = LibraryObj::new();
    obj.user_data = UserData::Module { name: "my_module".into(), is_pub: true, body: "".to_string(), append_to_body: vec![] };
    let s3input = s3::wasm_entrypoint(&mut obj, cb);
    assert_eq!(obj.compiler_error_message, "");
    assert_eq!(s3input.resource_name, "S3mymodule");
    assert_eq!(s3input.bucket_name, "something-exact");
}

#[test]
fn compile_error_on_invalid_name() {
    let cb = |a: &mut S3Input| {
        a.bucket_name = "something..exact".to_string();
    };
    let mut obj = LibraryObj::new();
    obj.user_data = UserData::Module { name: "my_module".into(), is_pub: true, body: "".to_string(), append_to_body: vec![] };
    let _s3input = s3::wasm_entrypoint(&mut obj, cb);
    assert!(obj.compiler_error_message.contains("May not contain two consecutive dots"));

    let cb = |_a: &mut S3Input| {};
    let mut obj = LibraryObj::new();
    obj.user_data = UserData::Module {
        name: "my_module_aaaaaaaaaaaaaaaaaaaaaaaaaaaaaaaaaaaaaaaaaaaaaaaaaaaaaaaaaaaaaaaaaaaaaaa".into(),
        is_pub: true,
        body: "".to_string(),
        append_to_body: vec![],
    };
    let _s3input = s3::wasm_entrypoint(&mut obj, cb);
    assert!(obj.compiler_error_message.contains("Must be between 3 and 63 characters"));
}

#[test]
fn one_character_bucket_name_is_too_short() {
    let cb = |a: &mut S3Input| {
        a.bucket_name = "a".to_string();
    };
    let mut obj = LibraryObj::new();
    obj.user_data = UserData::Module { name: "my_module".into(), is_pub: true, body: "".to_string(), append_to_body: vec![] };
    let _s3input = s3::wasm_entrypoint(&mut obj, cb);
    assert!(obj.compiler_error_message.contains("Must be between 3 and 63 characters"));
    assert!(obj.add_code_after.is_empty());

    let mut s = S3Input::new("my_module");
    s.bucket_name = "a".to_string();
    let problems = s.is_valid();
    assert_eq!(problems, vec!["Invalid bucket name \"a\"\nMust be between 3 and 63 characters".to_string()]);
}

#[test]
fn default_queue_settings_are_valid() {
    assert_eq!(SqsInput::new("my_queue_1").is_valid(), None);
    let long = "a_".repeat(200);
    let q = SqsInput::new(&long);
    assert_eq!(q.queue_name.len(), 80);
    assert_eq!(q.resource_name, format!("Q{}", "a".repeat(200)));
    assert_eq!(q.is_valid(), None);
}

#[test]
fn wrong_items_get_no_code() {
    let mut obj = LibraryObj::new();
    obj.user_data = UserData::Other;
    let _ = s3::wasm_entrypoint(&mut obj, |_a: &mut S3Input| {});
    assert!(!obj.compiler_error_message.is_empty());
    assert!(obj.add_code_after.is_empty());
    assert!(obj.shared_output_data.is_empty());
}
