use vstd::prelude::*;
use vstd::string::*;

use crate::cfn_text::{
    s3_bucket_text, s3_bucket_text_string, s3_website_config_text, s3_website_config_text_string, s3_website_policy_text, s3_website_policy_text_string, s3_cleanup_text, s3_cleanup_text_string, cdn_head_text, cdn_head_text_string, cdn_comment_text, cdn_comment_text_string, cdn_certificate_text, cdn_certificate_text_string, cdn_alias_text, cdn_alias_text_string, cdn_default_behavior_text, cdn_default_behavior_text_string, cdn_origin_text, cdn_origin_text_string, route53_text, route53_text_string, lambda_env_var_text, lambda_env_var_text_string, lambda_tag_text, lambda_tag_text_string, lambda_effect_text, lambda_effect_text_string, lambda_action_text, lambda_action_text_string, lambda_policy_resource_text, lambda_policy_resource_text_string, lambda_trigger_head_text, lambda_trigger_head_text_string, lambda_trigger_type_text, lambda_trigger_type_text_string, lambda_auth_text, lambda_auth_text_string, lambda_target_text, lambda_target_text_string, lambda_credentials_text, lambda_credentials_text_string, lambda_max_age_text, lambda_max_age_text_string, lambda_allow_headers_text, lambda_allow_headers_text_string, lambda_allow_methods_text, lambda_allow_methods_text_string, lambda_allow_origins_text, lambda_allow_origins_text_string, lambda_expose_headers_text, lambda_expose_headers_text_string, lambda_permission_text, lambda_permission_text_string, lambda_function_text, lambda_function_text_string,
};
use crate::resources::{
    distribution_view, lambda_view, pairs_view, record_view, s3_view, trigger_view,
    CloudfrontDistribution, DistributionV, LambdaFunction, LambdaTrigger, LambdaV, PolicyV,
    RecordV, Route53RecordSet, S3Bucket, S3BucketV, TriggerV,
};
use crate::text::{
    bool_string, bool_text, debug_list_text, debug_string_list, decimal, decimal_string,
    push_decimal, remove_char, remove_chars, strings_view, to_string, without_char,
    without_chars, seq_contains_run, seq_starts_with, seq_ends_with, lemma_run_across,
    lemma_run_in_concat, lemma_runs_in_concats, lemma_run_self,
};

verus! {

/// The template text of a bucket: the bucket, its website settings and policy when it is a
/// website, and the cleanup resources unless they are turned off.
pub open spec fn s3_resource_text(b: S3BucketV) -> Seq<char> {
    let rn = without_chars(b.name, "_.-"@);
    let main = s3_bucket_text(rn, b.access_control, b.name);
    let with_site = match b.public_website {
        Some(site) => main + s3_website_config_text(site.0, site.1) + s3_website_policy_text(rn),
        None => main,
    };
    if !b.no_custom_cleanup {
        with_site + s3_cleanup_text(rn)
    } else {
        with_site
    }
}

/// The template text of a bucket.
pub fn add_s3_bucket_resource(s3_conf: &S3Bucket) -> (r: String)
    ensures
        r@ == s3_resource_text(s3_view(*s3_conf)),
{
    let bucket_name = s3_conf.name.as_str();
    let rn = remove_chars(bucket_name, "_.-");
    let mut out = s3_bucket_text_string(
        rn.as_str(),
        s3_conf.access_control.as_str(),
        bucket_name,
    );
    if let Some(conf) = &s3_conf.public_website {
        let a = s3_website_config_text_string(
            conf.index_document.as_str(),
            conf.error_document.as_str(),
        );
        out.append(a.as_str());
        let b = s3_website_policy_text_string(rn.as_str());
        out.append(b.as_str());
    }
    if !s3_conf.no_custom_cleanup {
        let c = s3_cleanup_text_string(rn.as_str());
        out.append(c.as_str());
    }
    out
}

/// One alias line for each alias.
pub open spec fn aliases_text(a: Seq<Seq<char>>) -> Seq<char>
    decreases a.len(),
{
    if a.len() == 0 {
        Seq::empty()
    } else {
        aliases_text(a.drop_last()) + cdn_alias_text(a.last())
    }
}

/// The template text of a distribution: its head, its comment and certificate when given,
/// its aliases, and the default behavior and origin from the first origin.
pub open spec fn cdn_resource_text(d: DistributionV) -> Seq<char> {
    let rn = without_char(d.name, '_');
    let head = cdn_head_text(rn);
    let c = if d.comment.len() > 0 {
        head + cdn_comment_text(d.comment)
    } else {
        head
    };
    let cert = if d.acm_certificate_arn.len() > 0 {
        c + cdn_certificate_text(d.acm_certificate_arn)
    } else {
        c
    };
    let al = if d.aliases.len() > 0 {
        cert + "                Aliases:\n"@ + aliases_text(d.aliases)
    } else {
        cert
    };
    let o = d.origins[0];
    al + cdn_default_behavior_text(o.id) + "                Origins:\n"@ + cdn_origin_text(
        o.http_port,
        o.https_port,
        o.origin_protocol_policy,
        o.domain_name,
        o.id,
    )
}

/// The template text of a distribution, which has a first origin with a domain name.
pub fn add_cloudfront_resource(conf: &CloudfrontDistribution) -> (r: String)
    requires
        conf.origins_and_behaviors@.len() > 0,
        conf.origins_and_behaviors@[0].domain_name@.len() > 0,
    ensures
        r@ == cdn_resource_text(distribution_view(*conf)),
{
    let ghost d = distribution_view(*conf);
    let rn = remove_char(conf.name.as_str(), '_');
    let mut out = cdn_head_text_string(rn.as_str());
    if conf.comment.as_str().unicode_len() > 0 {
        let c = cdn_comment_text_string(conf.comment.as_str());
        out.append(c.as_str());
    }
    if conf.acm_certificate_arn.as_str().unicode_len() > 0 {
        let c = cdn_certificate_text_string(conf.acm_certificate_arn.as_str());
        out.append(c.as_str());
    }
    let n = conf.aliases.len();
    if n > 0 {
        out.append("                Aliases:\n");
        let ghost start = out@;
        let mut i: usize = 0;
        assert(strings_view(conf.aliases@).subrange(0, 0) =~= Seq::<Seq<char>>::empty());
        assert(out@ =~= start + aliases_text(strings_view(conf.aliases@).subrange(0, 0)));
        while i < n
            invariant
                n == conf.aliases@.len(),
                0 <= i <= n,
                out@ == start + aliases_text(strings_view(conf.aliases@).subrange(0, i as int)),
            decreases n - i,
        {
            let line = cdn_alias_text_string(conf.aliases[i].as_str());
            out.append(line.as_str());
            assert(strings_view(conf.aliases@).subrange(0, i + 1).drop_last() =~= strings_view(
                conf.aliases@,
            ).subrange(0, i as int));
            i = i + 1;
        }
        assert(strings_view(conf.aliases@).subrange(0, n as int) =~= strings_view(
            conf.aliases@,
        ));
    }
    let first = &conf.origins_and_behaviors[0];
    let b = cdn_default_behavior_text_string(first.id.as_str());
    out.append(b.as_str());
    out.append("                Origins:\n");
    let o = cdn_origin_text_string(
        first.http_port.as_str(),
        first.https_port.as_str(),
        first.origin_protocol_policy.as_str(),
        first.domain_name.as_str(),
        first.id.as_str(),
    );
    out.append(o.as_str());
    out
}

/// The template text of a DNS record.
pub open spec fn route53_resource_text(r: RecordV) -> Seq<char> {
    route53_text(
        without_chars(r.name, ".-_"@),
        r.alias_target_dns_name,
        r.alias_target_hosted_zone_id,
        r.hosted_zone_name,
        r.name,
        r.record_type,
    )
}

/// The template text of a DNS record.
pub fn add_route53_resource(conf: &Route53RecordSet) -> (r: String)
    ensures
        r@ == route53_resource_text(record_view(*conf)),
{
    let rn = remove_chars(conf.name.as_str(), ".-_");
    route53_text_string(
        rn.as_str(),
        conf.alias_target_dns_name.as_str(),
        conf.alias_target_hosted_zone_id.as_str(),
        conf.hosted_zone_name.as_str(),
        conf.name.as_str(),
        conf.record_type.as_str(),
    )
}

/// One line for each environment variable (or tag) pair, with the given line template.
pub open spec fn env_lines(p: Seq<(Seq<char>, Seq<char>)>) -> Seq<char>
    decreases p.len(),
{
    if p.len() == 0 {
        Seq::empty()
    } else {
        env_lines(p.drop_last()) + lambda_env_var_text(p.last().0, p.last().1)
    }
}

pub open spec fn tag_lines(p: Seq<(Seq<char>, Seq<char>)>) -> Seq<char>
    decreases p.len(),
{
    if p.len() == 0 {
        Seq::empty()
    } else {
        tag_lines(p.drop_last()) + lambda_tag_text(p.last().0, p.last().1)
    }
}

pub open spec fn policy_lines(p: Seq<PolicyV>) -> Seq<char>
    decreases p.len(),
{
    if p.len() == 0 {
        Seq::empty()
    } else {
        policy_lines(p.drop_last()) + lambda_effect_text(p.last().effect) + lambda_action_text(
            p.last().action,
        ) + lambda_policy_resource_text(p.last().resource)
    }
}

/// The resources of the `i`th trigger of the function whose resource name is `rn`.
pub open spec fn trigger_text(rn: Seq<char>, i: nat, t: TriggerV) -> Seq<char> {
    let a = lambda_trigger_head_text(rn, decimal(i)) + lambda_trigger_type_text(rn)
        + lambda_auth_text(t.auth_type) + lambda_target_text(rn) + "            Cors:\n"@
        + lambda_credentials_text(bool_text(t.cors_allow_credentials)) + lambda_max_age_text(
        t.cors_max_age,
    );
    let b = if t.cors_allow_headers.len() > 0 {
        a + lambda_allow_headers_text(debug_list_text(t.cors_allow_headers))
    } else {
        a
    };
    let c = if t.cors_allow_methods.len() > 0 {
        b + lambda_allow_methods_text(debug_list_text(t.cors_allow_methods))
    } else {
        b
    };
    let d = if t.cors_allow_origins.len() > 0 {
        c + lambda_allow_origins_text(debug_list_text(t.cors_allow_origins))
    } else {
        c
    };
    let e = if t.cors_expose_headers.len() > 0 {
        d + lambda_expose_headers_text(debug_list_text(t.cors_expose_headers))
    } else {
        d
    };
    e + lambda_permission_text(rn, decimal(i))
}

pub open spec fn triggers_text(rn: Seq<char>, ts: Seq<TriggerV>) -> Seq<char>
    decreases ts.len(),
{
    if ts.len() == 0 {
        Seq::empty()
    } else {
        triggers_text(rn, ts.drop_last()) + trigger_text(rn, (ts.len() - 1) as nat, ts.last())
    }
}

/// The template text of a function: the function and its role, with its tags, environment,
/// policy and triggers.
pub open spec fn lambda_resource_text(bucket_name: Seq<char>, func_name: Seq<char>, f: LambdaV) -> Seq<
    char,
> {
    let rn = without_char(func_name, '_');
    let env = if f.environment_variables.len() > 0 {
        "            Environment:\n                Variables:\n"@ + env_lines(
            f.environment_variables,
        )
    } else {
        Seq::empty()
    };
    let tags = if f.tags.len() > 0 {
        "            Tags:\n"@ + tag_lines(f.tags)
    } else {
        Seq::empty()
    };
    let policy = if f.policy_statements.len() > 0 {
        policy_header()@ + policy_lines(f.policy_statements)
    } else {
        Seq::empty()
    };
    lambda_function_text(
        rn,
        func_name,
        bucket_name,
        tags,
        f.memory,
        f.timeout,
        env,
        policy,
        triggers_text(rn, f.triggers),
    )
}

pub open spec fn policy_header() -> &'static str {
    "            Policies:\n            - PolicyName: lambda_generated_policy\n              PolicyDocument:\n                  Version: '2012-10-17'\n                  Statement:\n"
}

fn trigger_string(rn: &str, i: u64, t: &LambdaTrigger) -> (r: String)
    ensures
        r@ == trigger_text(rn@, i as nat, trigger_view(*t)),
{
    match t {
        LambdaTrigger::FunctionUrl {
            auth_type,
            cors_max_age,
            cors_expose_headers,
            cors_allow_origins,
            cors_allow_methods,
            cors_allow_headers,
            cors_allow_credentials,
        } => {
            let idx = decimal_string(i);
            let mut out = lambda_trigger_head_text_string(rn, idx.as_str());
            let x = lambda_trigger_type_text_string(rn);
            out.append(x.as_str());
            let x = lambda_auth_text_string(auth_type.as_str());
            out.append(x.as_str());
            let x = lambda_target_text_string(rn);
            out.append(x.as_str());
            out.append("            Cors:\n");
            let creds = bool_string(*cors_allow_credentials);
            let x = lambda_credentials_text_string(creds.as_str());
            out.append(x.as_str());
            let x = lambda_max_age_text_string(cors_max_age.as_str());
            out.append(x.as_str());
            if cors_allow_headers.len() > 0 {
                let l = debug_string_list(cors_allow_headers);
                let x = lambda_allow_headers_text_string(l.as_str());
                out.append(x.as_str());
            }
            if cors_allow_methods.len() > 0 {
                let l = debug_string_list(cors_allow_methods);
                let x = lambda_allow_methods_text_string(l.as_str());
                out.append(x.as_str());
            }
            if cors_allow_origins.len() > 0 {
                let l = debug_string_list(cors_allow_origins);
                let x = lambda_allow_origins_text_string(l.as_str());
                out.append(x.as_str());
            }
            if cors_expose_headers.len() > 0 {
                let l = debug_string_list(cors_expose_headers);
                let x = lambda_expose_headers_text_string(l.as_str());
                out.append(x.as_str());
            }
            let x = lambda_permission_text_string(rn, idx.as_str());
            out.append(x.as_str());
            out
        },
    }
}

/// The template text of a function whose code is in `bucket_name` under the function's name.
pub fn add_lambda_resource(bucket_name: &str, func_name: &str, lambda_conf: &LambdaFunction) -> (r: String)
    ensures
        r@ == lambda_resource_text(bucket_name@, func_name@, lambda_view(*lambda_conf)),
{
    let ghost f = lambda_view(*lambda_conf);
    let rn = remove_char(func_name, '_');
    let mut env = String::new();
    let n = lambda_conf.environment_variables.len();
    if n > 0 {
        env = to_string("            Environment:\n                Variables:\n");
        let ghost start = env@;
        let mut i: usize = 0;
        assert(f.environment_variables.subrange(0, 0) =~= Seq::<(Seq<char>, Seq<char>)>::empty());
        assert(env@ =~= start + env_lines(f.environment_variables.subrange(0, 0)));
        while i < n
            invariant
                n == lambda_conf.environment_variables@.len(),
                f == lambda_view(*lambda_conf),
                0 <= i <= n,
                env@ == start + env_lines(f.environment_variables.subrange(0, i as int)),
            decreases n - i,
        {
            let (k, v) = (&lambda_conf.environment_variables[i].0, &lambda_conf.environment_variables[i].1);
            let line = lambda_env_var_text_string(k.as_str(), v.as_str());
            env.append(line.as_str());
            assert(f.environment_variables.subrange(0, i + 1).drop_last()
                =~= f.environment_variables.subrange(0, i as int));
            i = i + 1;
        }
        assert(f.environment_variables.subrange(0, n as int) =~= f.environment_variables);
    } else {
        assert(env@ =~= Seq::<char>::empty());
    }
    let mut tags = String::new();
    let n = lambda_conf.tags.len();
    if n > 0 {
        tags = to_string("            Tags:\n");
        let ghost start = tags@;
        let mut i: usize = 0;
        assert(f.tags.subrange(0, 0) =~= Seq::<(Seq<char>, Seq<char>)>::empty());
        assert(tags@ =~= start + tag_lines(f.tags.subrange(0, 0)));
        while i < n
            invariant
                n == lambda_conf.tags@.len(),
                f == lambda_view(*lambda_conf),
                0 <= i <= n,
                tags@ == start + tag_lines(f.tags.subrange(0, i as int)),
            decreases n - i,
        {
            let line = lambda_tag_text_string(
                lambda_conf.tags[i].0.as_str(),
                lambda_conf.tags[i].1.as_str(),
            );
            tags.append(line.as_str());
            assert(f.tags.subrange(0, i + 1).drop_last() =~= f.tags.subrange(0, i as int));
            i = i + 1;
        }
        assert(f.tags.subrange(0, n as int) =~= f.tags);
    } else {
        assert(tags@ =~= Seq::<char>::empty());
    }
    let mut policy = String::new();
    let n = lambda_conf.policy_statements.len();
    if n > 0 {
        policy = to_string(
            "            Policies:\n            - PolicyName: lambda_generated_policy\n              PolicyDocument:\n                  Version: '2012-10-17'\n                  Statement:\n",
        );
        let ghost start = policy@;
        let mut i: usize = 0;
        assert(f.policy_statements.subrange(0, 0) =~= Seq::<PolicyV>::empty());
        assert(policy@ =~= start + policy_lines(f.policy_statements.subrange(0, 0)));
        while i < n
            invariant
                n == lambda_conf.policy_statements@.len(),
                f == lambda_view(*lambda_conf),
                0 <= i <= n,
                policy@ == start + policy_lines(f.policy_statements.subrange(0, i as int)),
            decreases n - i,
        {
            let st = &lambda_conf.policy_statements[i];
            let a = lambda_effect_text_string(st.effect.as_str());
            policy.append(a.as_str());
            let b = lambda_action_text_string(st.action.as_str());
            policy.append(b.as_str());
            let c = lambda_policy_resource_text_string(st.resource.as_str());
            policy.append(c.as_str());
            assert(f.policy_statements.subrange(0, i + 1).drop_last() =~= f.policy_statements.subrange(
                0,
                i as int,
            ));
            i = i + 1;
        }
        assert(f.policy_statements.subrange(0, n as int) =~= f.policy_statements);
    } else {
        assert(policy@ =~= Seq::<char>::empty());
    }
    let mut triggers = String::new();
    let n = lambda_conf.triggers.len();
    let mut i: usize = 0;
    assert(f.triggers.subrange(0, 0) =~= Seq::<TriggerV>::empty());
    assert(triggers@ =~= triggers_text(rn@, f.triggers.subrange(0, 0)));
    while i < n
        invariant
            n == lambda_conf.triggers@.len(),
            f == lambda_view(*lambda_conf),
            0 <= i <= n,
            triggers@ == triggers_text(rn@, f.triggers.subrange(0, i as int)),
        decreases n - i,
    {
        let t = trigger_string(rn.as_str(), i as u64, &lambda_conf.triggers[i]);
        triggers.append(t.as_str());
        assert(f.triggers.subrange(0, i + 1).drop_last() =~= f.triggers.subrange(0, i as int));
        i = i + 1;
    }
    assert(f.triggers.subrange(0, n as int) =~= f.triggers);
    lambda_function_text_string(
        rn.as_str(),
        func_name,
        bucket_name,
        tags.as_str(),
        lambda_conf.memory.as_str(),
        lambda_conf.timeout.as_str(),
        env.as_str(),
        policy.as_str(),
        triggers.as_str(),
    )
}

// ---------------------------------------------------------------- laws

/// A bucket gets the resources that empty it when the stack is deleted, starting with the
/// role `S3DeleteLambdaRole<resource name>`, exactly when they are not turned off: its text
/// with them is its text without them followed by more text that holds that role.
pub proof fn law_s3_cleanup_resources(b: S3BucketV)
    ensures
        ({
            let rn = without_chars(b.name, "_.-"@);
            let role = "S3DeleteLambdaRole"@ + rn;
            let with = s3_resource_text(S3BucketV { no_custom_cleanup: false, ..b });
            let without = s3_resource_text(S3BucketV { no_custom_cleanup: true, ..b });
            &&& !b.no_custom_cleanup ==> seq_contains_run(s3_resource_text(b), role)
            &&& seq_starts_with(with, without)
            &&& with.len() > without.len()
            &&& seq_contains_run(with.subrange(without.len() as int, with.len() as int), role)
        }),
{
    let rn = without_chars(b.name, "_.-"@);
    let role = "S3DeleteLambdaRole"@ + rn;
    let with = s3_resource_text(S3BucketV { no_custom_cleanup: false, ..b });
    let without = s3_resource_text(S3BucketV { no_custom_cleanup: true, ..b });
    let cl = s3_cleanup_text(rn);
    assert(with == without + cl);
    let head = "\n    S3DeleteLambdaRole"@;
    reveal_strlit("\n    S3DeleteLambdaRole");
    reveal_strlit("S3DeleteLambdaRole");
    assert(seq_ends_with(head, "S3DeleteLambdaRole"@)) by {
        assert(head.subrange(head.len() - 18, head.len() as int) =~= "S3DeleteLambdaRole"@);
    }
    assert(seq_starts_with(Seq::<char>::empty(), Seq::<char>::empty())) by {
        assert(Seq::<char>::empty().subrange(0, 0) =~= Seq::<char>::empty());
    }
    lemma_run_across(head, rn, Seq::<char>::empty(), "S3DeleteLambdaRole"@, Seq::<char>::empty());
    lemma_runs_in_concats();
    assert(seq_contains_run(cl, role));
    assert(with.subrange(without.len() as int, with.len() as int) =~= cl);
    assert(with.subrange(0, without.len() as int) =~= without);
    assert(cl.len() >= role.len());
    if !b.no_custom_cleanup {
        assert(s3_resource_text(b) == with);
        lemma_run_in_concat(without, cl, role);
    }
}

proof fn lemma_env_lines_hold(p: Seq<(Seq<char>, Seq<char>)>, i: int)
    requires
        0 <= i < p.len(),
    ensures
        seq_contains_run(env_lines(p), "                    "@ + p[i].0 + ": "@ + p[i].1 + "\n"@),
    decreases p.len(),
{
    let line = "                    "@ + p[i].0 + ": "@ + p[i].1 + "\n"@;
    if i == p.len() - 1 {
        lemma_run_self(line);
        lemma_run_in_concat(env_lines(p.drop_last()), line, line);
    } else {
        lemma_env_lines_hold(p.drop_last(), i);
        assert(p.drop_last()[i] == p[i]);
        lemma_run_in_concat(env_lines(p.drop_last()), lambda_env_var_text(p.last().0, p.last().1), line);
    }
}

/// Every environment variable `(k, v)` of a function appears in its template text under an
/// `Environment:` / `Variables:` section, as the line `k: v`.
pub proof fn law_lambda_environment(bucket_name: Seq<char>, func_name: Seq<char>, f: LambdaV, i: int)
    requires
        0 <= i < f.environment_variables.len(),
    ensures
        seq_contains_run(
            lambda_resource_text(bucket_name, func_name, f),
            "            Environment:\n                Variables:\n"@,
        ),
        seq_contains_run(
            lambda_resource_text(bucket_name, func_name, f),
            "                    "@ + f.environment_variables[i].0 + ": "@ + f.environment_variables[i].1
                + "\n"@,
        ),
{
    let header = "            Environment:\n                Variables:\n"@;
    let line = "                    "@ + f.environment_variables[i].0 + ": "@ + f.environment_variables[i].1
        + "\n"@;
    let env = header + env_lines(f.environment_variables);
    lemma_env_lines_hold(f.environment_variables, i);
    lemma_run_self(header);
    lemma_run_in_concat(header, env_lines(f.environment_variables), header);
    lemma_run_in_concat(header, env_lines(f.environment_variables), line);
    lemma_runs_in_concats();
    let rn = without_char(func_name, '_');
    let tags = if f.tags.len() > 0 {
        "            Tags:\n"@ + tag_lines(f.tags)
    } else {
        Seq::empty()
    };
    let policy = if f.policy_statements.len() > 0 {
        policy_header()@ + policy_lines(f.policy_statements)
    } else {
        Seq::empty()
    };
    assert(lambda_resource_text(bucket_name, func_name, f) == lambda_function_text(
        rn,
        func_name,
        bucket_name,
        tags,
        f.memory,
        f.timeout,
        env,
        policy,
        triggers_text(rn, f.triggers),
    ));
}

/// A distribution given a certificate serves its aliases with it: its template text holds
/// the `ViewerCertificate` block with `AcmCertificateArn: ` and that ARN, TLS 1.2 and SNI.
pub proof fn law_cdn_certificate(d: DistributionV)
    requires
        d.acm_certificate_arn.len() > 0,
    ensures
        seq_contains_run(
            cdn_resource_text(d),
            "ViewerCertificate:\n                    AcmCertificateArn: "@ + d.acm_certificate_arn
                + "\n                    MinimumProtocolVersion: TLSv1.2_2021\n                    SslSupportMethod: sni-only\n"@,
        ),
{
    let arn = d.acm_certificate_arn;
    let head = "\n                ViewerCertificate:\n                    AcmCertificateArn: "@;
    let x = "ViewerCertificate:\n                    AcmCertificateArn: "@;
    let tail = "\n                    MinimumProtocolVersion: TLSv1.2_2021\n                    SslSupportMethod: sni-only\n"@;
    reveal_strlit("\n                ViewerCertificate:\n                    AcmCertificateArn: ");
    reveal_strlit("ViewerCertificate:\n                    AcmCertificateArn: ");
    assert(seq_ends_with(head, x)) by {
        assert(head.subrange(head.len() - x.len(), head.len() as int) =~= x);
    }
    assert(seq_starts_with(tail, tail)) by {
        assert(tail.subrange(0, tail.len() as int) =~= tail);
    }
    lemma_run_across(head, arn, tail, x, tail);
    let rn = without_char(d.name, '_');
    let head0 = cdn_head_text(rn);
    let c = if d.comment.len() > 0 {
        head0 + cdn_comment_text(d.comment)
    } else {
        head0
    };
    let cert = c + cdn_certificate_text(arn);
    lemma_run_in_concat(c, cdn_certificate_text(arn), x + arn + tail);
    lemma_runs_in_concats();
    let al = if d.aliases.len() > 0 {
        cert + "                Aliases:\n"@ + aliases_text(d.aliases)
    } else {
        cert
    };
    assert(seq_contains_run(al, x + arn + tail));
}

} // verus!
