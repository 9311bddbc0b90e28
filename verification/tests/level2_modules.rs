use hira::kv::StrMap;
use hira::level0::{L0Core, L0RuntimeCreator};
use hira::level2::aws_cloudfront_distribution::{self as distribution, DomainValue, OriginProtocolPolicy};
use hira::level2::stack_deploy::{
    describe_stack, does_stack_exist, module_progress, outputs_report, progress_when_done,
    progress_while_deploying, sort_pairs, update_outcome, StackPhase,
};
use hira::level2::{aws_acm_cert, aws_s3, dotenv_reader, echo, lambda_url_distribution, s3_website_distribution};

fn core_for(user_module: &str) -> L0Core {
    let mut core = L0Core::new();
    core.current_module_name = "the_module".to_string();
    core.lvl3_module_name = user_module.to_string();
    core
}

#[test]
fn echo_adds_a_print_line_to_the_users_runtime() {
    let mut inp = echo::Input { echo: "hello world".to_string() };
    let mut core = core_for("my_mod");
    let mut runtimer = L0RuntimeCreator::new();
    runtimer.current_module_name = "echo".to_string();
    echo::config(&mut inp, &mut core, &mut runtimer);
    echo::config(&mut inp, &mut core, &mut runtimer);
    assert_eq!(runtimer.runtimes.len(), 1);
    let (name, data) = &runtimer.runtimes[0];
    assert_eq!(name, "my_mod");
    assert_eq!(data.code_lines.len(), 2);
    assert_eq!(data.code_lines[0].code, "println!(r#\"hello world\"#)");
    assert_eq!(data.code_lines[0].creator, "echo");
    assert!(!data.code_lines[0].unique_line);
}

#[test]
fn dotenv_reader_gives_its_path() {
    let mut inp = dotenv_reader::Input { dotenv_path: "../.env".to_string() };
    let mut core = L0Core::new();
    assert_eq!(dotenv_reader::config(&mut inp, &mut core), "../.env");
}

#[test]
fn certificate_needs_a_domain() {
    let mut inp = aws_acm_cert::Input { domain_name: String::new() };
    let mut core = core_for("site");
    assert!(aws_acm_cert::config(&mut inp, &mut core).is_none());
    assert_eq!(core.compiler_error_message, "Must provide a domain name");
}

#[test]
fn certificate_allows_one_leading_wildcard() {
    let mut inp = aws_acm_cert::Input { domain_name: "*.*.example.com".to_string() };
    let mut core = core_for("site");
    assert!(aws_acm_cert::config(&mut inp, &mut core).is_none());
    assert_eq!(core.compiler_error_message, "Must only provide 1 wildcard. *.*.example.com is invalid.");

    let mut inp = aws_acm_cert::Input { domain_name: "www.*.example.com".to_string() };
    let mut core = core_for("site");
    assert!(aws_acm_cert::config(&mut inp, &mut core).is_none());
    assert!(core.compiler_error_message.starts_with("If using a wildcard, it must be the first component"));
    assert!(core.compiler_error_message.ends_with("www.*.example.com is invalid."));
}

#[test]
fn certificate_plan_is_named_after_the_module() {
    let mut inp = aws_acm_cert::Input { domain_name: "*.example.com".to_string() };
    let mut core = core_for("my_site");
    let plan = aws_acm_cert::config(&mut inp, &mut core).expect("a plan");
    assert_eq!(plan.logical_cert_name, "hiragencertmysite");
    assert_eq!(plan.domain_name, "*.example.com");
    assert_eq!(core.compiler_error_message, "");
    assert_eq!(core.remove_specific_output("the_module", "LOGICAL_CERT_NAME"), Some("hiragencertmysite".to_string()));
}

#[test]
fn bucket_plan_with_cleanup() {
    let mut inp = aws_s3::Input {
        dont_create_cleanup_resources: false,
        is_website: false,
        extra_bucket_settings: aws_s3::BucketSettings {
            website_configuration: None,
            public_access_block_configuration: None,
            other_properties: vec![("BucketName".to_string(), "\"mine\"".to_string())],
        },
    };
    let mut core = core_for("my_bucket");
    let plan = aws_s3::config(&mut inp, &mut core);
    assert_eq!(plan.logical_bucket_name, "hiragenbucketmybucket");
    assert!(plan.bucket.website_configuration.is_none());
    assert!(plan.bucket.public_access_block_configuration.is_none());
    assert_eq!(plan.bucket.other_properties, vec![("BucketName".to_string(), "\"mine\"".to_string())]);
    assert!(plan.bucket_policy.is_none());
    let cleanup = plan.cleanup.expect("cleanup");
    assert_eq!(cleanup.logical_role_name, "hiragenrolemybucket");
    assert_eq!(cleanup.policy_name, "hira-gen-policy-my_bucket");
    assert_eq!(cleanup.logical_fn_name, "hiragencleanupfunctionmybucket");
    assert_eq!(cleanup.logical_cleanup_resource_name, "hiragencustomcleanupmybucket");
    assert_eq!(
        cleanup.statements,
        vec![
            (
                "Allow".to_string(),
                "s3:ListBucket".to_string(),
                "{\"Fn::GetAtt\":[\"hiragenbucketmybucket\",\"Arn\"]}".to_string(),
                "".to_string()
            ),
            (
                "Allow".to_string(),
                "s3:DeleteObject".to_string(),
                "{\"Fn::Sub\":\"arn:aws:s3:::${hiragenbucketmybucket}/*\"}".to_string(),
                "".to_string()
            ),
        ]
    );
    assert_eq!(cleanup.assume_role.2, "lambda.amazonaws.com");
    assert_eq!(cleanup.assume_role.3, "sts:AssumeRole");
    assert_eq!(cleanup.function_runtime, "nodejs16.x");
    assert_eq!(cleanup.function_handler, "index.handler");
    assert_eq!(cleanup.function_role, "{\"Fn::GetAtt\":[\"hiragenrolemybucket\",\"Arn\"]}");
    assert!(cleanup.function_code.contains("exports.handler = async function(event, context)"));
    assert_eq!(cleanup.cleanup.type_string(), "Custom::cleanupbucket");
    assert_eq!(
        cleanup.cleanup.properties(),
        "{\"ServiceToken\":{\"Fn::GetAtt\":[\"hiragencleanupfunctionmybucket\",\"Arn\"]},\"BucketName\":{\"Ref\":\"hiragenbucketmybucket\"}}"
    );
    assert_eq!(core.remove_specific_output("the_module", "LOGICAL_BUCKET_NAME"), Some("hiragenbucketmybucket".to_string()));
}

#[test]
fn website_bucket_gets_a_public_policy() {
    let mut inp = aws_s3::Input {
        dont_create_cleanup_resources: true,
        is_website: true,
        extra_bucket_settings: aws_s3::BucketSettings {
            website_configuration: None,
            public_access_block_configuration: Some(aws_s3::PublicAccessBlock {
                block_public_acls: Some(true),
                block_public_policy: Some(true),
                ignore_public_acls: None,
                restrict_public_buckets: None,
            }),
            other_properties: vec![],
        },
    };
    let mut core = core_for("web");
    let plan = aws_s3::config(&mut inp, &mut core);
    let site = plan.bucket.website_configuration.expect("website");
    assert_eq!(site.index_document.as_deref(), Some("index.html"));
    assert_eq!(site.error_document.as_deref(), Some("index.html"));
    let block = plan.bucket.public_access_block_configuration.expect("block");
    assert_eq!(block.block_public_acls, Some(true));
    assert_eq!(block.block_public_policy, Some(false));
    assert!(plan.cleanup.is_none());
    let policy = plan.bucket_policy.expect("policy");
    assert_eq!(policy.logical_policy_name, "hiragenbucketwebpolicy");
    assert_eq!(policy.bucket, "{\"Ref\":\"hiragenbucketweb\"}");
    assert_eq!(
        policy.statements,
        vec![(
            "Allow".to_string(),
            "s3:GetObject".to_string(),
            "{\"Fn::Sub\":\"arn:aws:s3:::${hiragenbucketweb}/*\"}".to_string(),
            "*".to_string()
        )]
    );
}

fn endpoint(path: &str, url: &str) -> lambda_url_distribution::LambdaApiEndpoint {
    lambda_url_distribution::LambdaApiEndpoint { path: path.to_string(), function_url_id: url.to_string() }
}

#[test]
fn lambda_distribution_routes_paths() {
    let mut inp = lambda_url_distribution::Input {
        endpoints: vec![endpoint("/api/*", "apiurl"), endpoint("/", "rooturl"), endpoint("/other", "otherurl")],
        custom_domain_settings: None,
    };
    let mut distr = <distribution::Input as Default>::default();
    let mut core = L0Core::new();
    lambda_url_distribution::config(&mut inp, &mut distr, &mut core);
    assert!(inp.endpoints.is_empty());
    assert_eq!(core.compiler_error_message, "");
    assert!(matches!(&distr.default_origin_domain_name, DomainValue::FunctionUrlOf(s) if s == "rooturl"));
    assert_eq!(distr.default_origin_protocol_policy, OriginProtocolPolicy::HttpsOnly);
    assert_eq!(distr.extra_origins.len(), 2);
    assert_eq!(distr.extra_origins[0].id, "extraorigin0");
    assert_eq!(distr.extra_origins[0].path_pattern, "/api/*");
    assert!(matches!(&distr.extra_origins[0].domain, DomainValue::FunctionUrlOf(s) if s == "apiurl"));
    assert_eq!(distr.extra_origins[1].id, "extraorigin1");
    assert_eq!(distr.extra_origins[1].target_origin_id, "extraorigin1");
    assert_eq!(distr.extra_origins[1].path_pattern, "/other");
}

#[test]
fn lambda_distribution_refuses_duplicate_paths() {
    let mut inp = lambda_url_distribution::Input {
        endpoints: vec![endpoint("/", "a"), endpoint("/x", "b"), endpoint("/x", "c")],
        custom_domain_settings: None,
    };
    let mut distr = <distribution::Input as Default>::default();
    let mut core = L0Core::new();
    lambda_url_distribution::config(&mut inp, &mut distr, &mut core);
    assert_eq!(
        core.compiler_error_message,
        "Lambda API distribution received duplicate endpoint path /x. All paths in a distribution must be unique"
    );
    assert!(distr.extra_origins.is_empty());
}

#[test]
fn lambda_distribution_needs_a_default_endpoint() {
    let mut inp = lambda_url_distribution::Input { endpoints: vec![endpoint("/x", "b")], custom_domain_settings: None };
    let mut distr = <distribution::Input as Default>::default();
    let mut core = L0Core::new();
    lambda_url_distribution::config(&mut inp, &mut distr, &mut core);
    assert_eq!(
        core.compiler_error_message,
        "Lambda API distribution missing a default endpoint. Must provide an endpoint where path = '/'"
    );
}

#[test]
fn website_distribution_points_at_the_bucket() {
    let mut inp = s3_website_distribution::Input { logical_bucket_website_url: "bucketid".to_string(), custom_domain_settings: None };
    let mut distr = <distribution::Input as Default>::default();
    let mut core = L0Core::new();
    s3_website_distribution::config(&mut inp, &mut distr, &mut core);
    assert!(matches!(&distr.default_origin_domain_name, DomainValue::S3WebsiteUrlOf(s) if s == "bucketid"));
    assert_eq!(distr.default_origin_protocol_policy, OriginProtocolPolicy::HttpOnly);
}

#[test]
fn stack_descriptions_are_read() {
    assert_eq!(describe_stack("s", Some((Some("CREATE_COMPLETE"), None)), None), Ok(StackPhase::Done));
    assert_eq!(describe_stack("s", Some((Some("UPDATE_IN_PROGRESS"), None)), None), Ok(StackPhase::InProgress));
    assert_eq!(describe_stack("s", Some((Some("ROLLBACK_COMPLETE"), Some("bad template"))), None), Err("bad template".to_string()));
    assert_eq!(
        describe_stack("s", Some((Some("ROLLBACK_COMPLETE"), None)), None),
        Err("Failed to get stack failure reason".to_string())
    );
    assert_eq!(describe_stack("s", None, None), Err("Stack s not found".to_string()));
    assert_eq!(describe_stack("s", Some((None, None)), None), Err("Stack s not found".to_string()));
    assert_eq!(describe_stack("s", None, Some("error: Stack with id s does not exist")), Ok(StackPhase::InProgress));
    assert_eq!(describe_stack("s", None, Some("throttled")), Err("throttled".to_string()));
}

#[test]
fn stack_existence_and_updates() {
    assert_eq!(does_stack_exist(None), Ok(true));
    assert_eq!(does_stack_exist(Some("Stack with id x does not exist")), Ok(false));
    assert_eq!(does_stack_exist(Some("denied")), Err("denied".to_string()));
    assert_eq!(update_outcome(None), Ok(()));
    assert_eq!(update_outcome(Some("No updates are to be performed.")), Ok(()));
    assert_eq!(update_outcome(Some("denied")), Err("Failed to update:\ndenied".to_string()));
}

fn templates() -> Vec<(String, Vec<String>)> {
    vec![
        ("a".to_string(), vec!["r1".to_string(), "r2".to_string()]),
        ("b".to_string(), vec![]),
        ("c".to_string(), vec!["r3".to_string()]),
        ("a".to_string(), vec!["r4".to_string()]),
    ]
}

#[test]
fn progress_groups_resources_by_module() {
    let mods = module_progress(&templates());
    assert_eq!(mods.len(), 2);
    assert_eq!(mods[0].mod_name, "a");
    let ids: Vec<&str> = mods[0].resource_ids.iter().map(|(_, s)| s.as_str()).collect();
    assert_eq!(ids, vec!["r1", "r2", "r4"]);
    assert_eq!(mods[1].mod_name, "c");
    assert!(mods.iter().all(|m| m.counts.complete_count == 0 && m.counts.has_changes));
}

#[test]
fn progress_is_printed_once_per_change() {
    let mut mods = module_progress(&templates());
    let mut statuses = StrMap::new();
    statuses.insert("r1".to_string(), "CREATE_COMPLETE".to_string());
    statuses.insert("r3".to_string(), "CREATE_IN_PROGRESS".to_string());
    let lines = progress_while_deploying(&mut mods, Some(&statuses));
    assert_eq!(lines, vec!["a\t\t0/3", "c\t\t0/1", "a\t\t1/3"]);
    let lines = progress_while_deploying(&mut mods, None);
    assert!(lines.is_empty());
    let lines = progress_when_done(&mut mods);
    assert_eq!(lines, vec!["a\t\t3/3", "c\t\t1/1"]);
}

#[test]
fn outputs_are_reported_by_key() {
    assert!(outputs_report(vec![]).is_empty());
    let report = outputs_report(vec![
        ("b".to_string(), "2".to_string()),
        ("a".to_string(), "1".to_string()),
    ]);
    assert_eq!(report, vec!["\nOutputs:", "- a:\n  1", "- b:\n  2"]);
    let sorted = sort_pairs(vec![
        ("k".to_string(), "x".to_string()),
        ("a".to_string(), "y".to_string()),
        ("k".to_string(), "z".to_string()),
    ]);
    assert_eq!(sorted[0].0, "a");
    assert_eq!(sorted[1].1, "x");
    assert_eq!(sorted[2].1, "z");
}

#[test]
fn lambda_distribution_refuses_two_default_endpoints() {
    let mut inp = lambda_url_distribution::Input {
        endpoints: vec![endpoint("/", "a"), endpoint("/", "b")],
        custom_domain_settings: None,
    };
    let mut distr = <distribution::Input as Default>::default();
    let mut core = L0Core::new();
    lambda_url_distribution::config(&mut inp, &mut distr, &mut core);
    assert_eq!(
        core.compiler_error_message,
        "Lambda API distribution received duplicate endpoint path /. All paths in a distribution must be unique"
    );
    assert!(matches!(&distr.default_origin_domain_name, DomainValue::Literal(s) if s.is_empty()));
    assert!(distr.extra_origins.is_empty());
}
