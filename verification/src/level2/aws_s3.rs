use vstd::prelude::*;
use vstd::string::*;

use crate::level0::{nested_put, L0Core};
use crate::text::{concat3, remove_char, to_string, without_char};

verus! {

/// The public access block of a bucket; an unset flag is left to the default.
#[derive(Clone, Copy)]
pub struct PublicAccessBlock {
    pub block_public_acls: Option<bool>,
    pub block_public_policy: Option<bool>,
    pub ignore_public_acls: Option<bool>,
    pub restrict_public_buckets: Option<bool>,
}

/// The website settings of a bucket: its index and error documents.
pub struct WebsiteConfiguration {
    pub index_document: Option<String>,
    pub error_document: Option<String>,
}

/// The properties of a bucket: the website and public access settings, which this module
/// sets for a website, and every other property by name, with its value as JSON text.
pub struct BucketSettings {
    pub website_configuration: Option<WebsiteConfiguration>,
    pub public_access_block_configuration: Option<PublicAccessBlock>,
    pub other_properties: Vec<(String, String)>,
}

/// A bucket's properties as a value of the specification.
pub struct BucketV {
    pub website: Option<(Option<Seq<char>>, Option<Seq<char>>)>,
    pub public_access_block: Option<PublicAccessBlock>,
    pub other: Seq<(Seq<char>, Seq<char>)>,
}

pub open spec fn opt_view(o: Option<String>) -> Option<Seq<char>> {
    match o {
        Some(s) => Some(s@),
        None => None,
    }
}

pub open spec fn bucket_view(b: BucketSettings) -> BucketV {
    BucketV {
        website: match b.website_configuration {
            Some(w) => Some((opt_view(w.index_document), opt_view(w.error_document))),
            None => None,
        },
        public_access_block: b.public_access_block_configuration,
        other: Seq::new(b.other_properties@.len(), |i: int| (b.other_properties@[i].0@, b.other_properties@[i].1@)),
    }
}

impl Default for BucketSettings {
    fn default() -> (r: BucketSettings)
        ensures
            r.website_configuration is None,
            r.public_access_block_configuration is None,
            r.other_properties@.len() == 0,
    {
        BucketSettings {
            website_configuration: None,
            public_access_block_configuration: None,
            other_properties: Vec::new(),
        }
    }
}

/// The settings of a bucket.
pub struct Input {
    /// when set, no cleanup resources are made: a role, a function and a custom resource
    /// that empty the bucket when the stack is deleted
    pub dont_create_cleanup_resources: bool,
    /// when set, the bucket serves `index.html` as a website, its objects are publicly
    /// readable through a bucket policy, and public policies are not blocked
    pub is_website: bool,
    /// the bucket's properties; by default the deployment picks the bucket's name
    pub extra_bucket_settings: BucketSettings,
}

impl Default for Input {
    fn default() -> (r: Input)
        ensures
            !r.dont_create_cleanup_resources,
            !r.is_website,
            bucket_view(r.extra_bucket_settings) == (BucketV {
                website: None,
                public_access_block: None,
                other: Seq::empty(),
            }),
    {
        let r = Input {
            dont_create_cleanup_resources: false,
            is_website: false,
            extra_bucket_settings: BucketSettings::default(),
        };
        assert(bucket_view(r.extra_bucket_settings).other =~= Seq::<(Seq<char>, Seq<char>)>::empty());
        r
    }
}

/// The custom resource that empties a bucket, by the function that does it, when the stack
/// is deleted.
pub struct CleanupResource {
    pub lambda_logical_id: String,
    pub bucket_logical_id: String,
}

impl CleanupResource {
    /// The resource type of the custom resource.
    pub fn type_string(&self) -> (r: &'static str)
        ensures
            r@ == "Custom::cleanupbucket"@,
    {
        "Custom::cleanupbucket"
    }

    /// The properties of the custom resource as JSON text: the function's ARN as the
    /// service token, and the bucket's name.
    pub fn properties(&self) -> (r: String)
        ensures
            r@ == cleanup_properties_text(self.lambda_logical_id@, self.bucket_logical_id@),
    {
        let mut s = concat3(
            "{\"ServiceToken\":{\"Fn::GetAtt\":[\"",
            self.lambda_logical_id.as_str(),
            "\",\"Arn\"]},\"BucketName\":{\"Ref\":\"",
        );
        s.append(self.bucket_logical_id.as_str());
        s.append("\"}}");
        s
    }
}

pub open spec fn cleanup_properties_text(lambda: Seq<char>, bucket: Seq<char>) -> Seq<char> {
    "{\"ServiceToken\":{\"Fn::GetAtt\":[\""@ + lambda + "\",\"Arn\"]},\"BucketName\":{\"Ref\":\""@
        + bucket + "\"}}"@
}

/// A policy statement: (effect, action, resource as JSON text, principal; empty for none).
pub type Statement = (String, String, String, String);

pub open spec fn statements_view(v: Seq<Statement>) -> Seq<(Seq<char>, Seq<char>, Seq<char>, Seq<char>)> {
    Seq::new(v.len(), |i: int| (v[i].0@, v[i].1@, v[i].2@, v[i].3@))
}

/// The policy that lets anyone read the objects of a website bucket.
pub struct BucketPolicyPlan {
    pub logical_policy_name: String,
    /// the bucket, as JSON text
    pub bucket: String,
    pub statements: Vec<Statement>,
}

/// The resources that empty the bucket when the stack is deleted.
pub struct CleanupPlan {
    pub logical_role_name: String,
    /// the name of the role's policy that lets the function list and delete the objects
    pub policy_name: String,
    pub statements: Vec<Statement>,
    pub role_description: String,
    /// (version, effect, service, action) of the document that lets the function take
    /// the role
    pub assume_role: (String, String, String, String),
    pub logical_fn_name: String,
    pub function_runtime: String,
    pub function_handler: String,
    /// the role of the function, as JSON text
    pub function_role: String,
    /// the source of the function
    pub function_code: String,
    pub logical_cleanup_resource_name: String,
    pub cleanup: CleanupResource,
}

/// What a bucket module makes, in the order the resources are added to the stack: the
/// bucket, its public-read policy for a website, then the role, the function and the
/// custom resource of the cleanup.
pub struct S3Plan {
    pub logical_bucket_name: String,
    pub bucket: BucketSettings,
    pub bucket_policy: Option<BucketPolicyPlan>,
    pub cleanup: Option<CleanupPlan>,
}

/// The logical name made from a prefix and the user's module name: underscores are taken out.
pub open spec fn logical_name(prefix: Seq<char>, m: Seq<char>) -> Seq<char> {
    without_char(prefix + m, '_')
}

/// The ARN pattern of all objects of the bucket, `arn:aws:s3:::${name}/*`.
pub open spec fn objects_arn(name: Seq<char>) -> Seq<char> {
    "arn:aws:s3:::${"@ + name + "}/*"@
}

/// `{"Fn::GetAtt": [name, "Arn"]}` as JSON text.
pub open spec fn arn_of_text(name: Seq<char>) -> Seq<char> {
    "{\"Fn::GetAtt\":[\""@ + name + "\",\"Arn\"]}"@
}

/// `{"Ref": name}` as JSON text.
pub open spec fn ref_text(name: Seq<char>) -> Seq<char> {
    "{\"Ref\":\""@ + name + "\"}"@
}

/// `{"Fn::Sub": s}` as JSON text.
pub open spec fn sub_text(s: Seq<char>) -> Seq<char> {
    "{\"Fn::Sub\":\""@ + s + "\"}"@
}

fn arn_of(name: &str) -> (r: String)
    ensures
        r@ == arn_of_text(name@),
{
    concat3("{\"Fn::GetAtt\":[\"", name, "\",\"Arn\"]}")
}

fn sub_of(s: &str) -> (r: String)
    ensures
        r@ == sub_text(s@),
{
    concat3("{\"Fn::Sub\":\"", s, "\"}")
}

/// The statement of a website bucket's policy: anyone may read its objects.
pub open spec fn website_statements(bucket: Seq<char>) -> Seq<(Seq<char>, Seq<char>, Seq<char>, Seq<char>)> {
    seq![("Allow"@, "s3:GetObject"@, sub_text(objects_arn(bucket)), "*"@)]
}

/// The statements of the cleanup role's policy: list the bucket and delete its objects.
pub open spec fn cleanup_statements(bucket: Seq<char>) -> Seq<(Seq<char>, Seq<char>, Seq<char>, Seq<char>)> {
    seq![
        ("Allow"@, "s3:ListBucket"@, arn_of_text(bucket), ""@),
        ("Allow"@, "s3:DeleteObject"@, sub_text(objects_arn(bucket)), ""@),
    ]
}

/// The source of the function that empties the bucket when the stack is deleted.
pub open spec fn cleanup_code() -> Seq<char> {
    "\n                var AWS = require('aws-sdk')\n                var response = require('cfn-response')\n                const s3 = new AWS.S3({});\n                async function listObjects(bucketName) {\n                    const data = await s3.listObjects({ Bucket: bucketName }).promise();\n                    const objects = data.Contents;\n                    for (let obj of objects) {\n                        await s3.deleteObject({ Bucket: bucketName, Key: obj.Key }).promise();\n                    }\n                }\n                exports.handler = async function(event, context) {\n                    let responseType = response.SUCCESS\n                    if (event.RequestType == 'Delete') {\n                        try {\n                            await listObjects(event.ResourceProperties.BucketName);\n                        } catch (err) {\n                            responseType = response.FAILED\n                        }\n                    }\n                    await response.send(event, context, responseType)\n                }\n                "@
}

fn cleanup_code_string() -> (r: String)
    ensures
        r@ == cleanup_code(),
{
    to_string("\n                var AWS = require('aws-sdk')\n                var response = require('cfn-response')\n                const s3 = new AWS.S3({});\n                async function listObjects(bucketName) {\n                    const data = await s3.listObjects({ Bucket: bucketName }).promise();\n                    const objects = data.Contents;\n                    for (let obj of objects) {\n                        await s3.deleteObject({ Bucket: bucketName, Key: obj.Key }).promise();\n                    }\n                }\n                exports.handler = async function(event, context) {\n                    let responseType = response.SUCCESS\n                    if (event.RequestType == 'Delete') {\n                        try {\n                            await listObjects(event.ResourceProperties.BucketName);\n                        } catch (err) {\n                            responseType = response.FAILED\n                        }\n                    }\n                    await response.send(event, context, responseType)\n                }\n                ")
}

/// A bucket's properties for a website: `index.html` as index and error document, and a
/// public access block (the given one, or a default one) that does not block public
/// policies.
pub open spec fn website_bucket(b: BucketV) -> BucketV {
    BucketV {
        website: Some((Some("index.html"@), Some("index.html"@))),
        public_access_block: Some(
            match b.public_access_block {
                Some(p) => PublicAccessBlock { block_public_policy: Some(false), ..p },
                None => PublicAccessBlock {
                    block_public_acls: None,
                    block_public_policy: Some(false),
                    ignore_public_acls: None,
                    restrict_public_buckets: None,
                },
            },
        ),
        other: b.other,
    }
}

fn copy_pairs(v: &Vec<(String, String)>) -> (r: Vec<(String, String)>)
    ensures
        Seq::new(r@.len(), |i: int| (r@[i].0@, r@[i].1@)) == Seq::new(v@.len(), |i: int| (v@[i].0@, v@[i].1@)),
{
    let mut out: Vec<(String, String)> = Vec::new();
    let mut i: usize = 0;
    while i < v.len()
        invariant
            i <= v@.len(),
            out@.len() == i,
            forall|j: int| 0 <= j < i ==> (#[trigger] out@[j]).0@ == v@[j].0@ && out@[j].1@ == v@[j].1@,
        decreases v@.len() - i,
    {
        out.push((v[i].0.clone(), v[i].1.clone()));
        i = i + 1;
    }
    assert(Seq::new(out@.len(), |i: int| (out@[i].0@, out@[i].1@)) =~= Seq::new(v@.len(), |i: int| (v@[i].0@, v@[i].1@)));
    out
}

fn copy_opt(o: &Option<String>) -> (r: Option<String>)
    ensures
        opt_view(r) == opt_view(*o),
{
    match o {
        Some(s) => Some(s.clone()),
        None => None,
    }
}

fn copy_bucket(b: &BucketSettings) -> (r: BucketSettings)
    ensures
        bucket_view(r) == bucket_view(*b),
{
    let website_configuration = match &b.website_configuration {
        Some(w) => Some(
            WebsiteConfiguration {
                index_document: copy_opt(&w.index_document),
                error_document: copy_opt(&w.error_document),
            },
        ),
        None => None,
    };
    BucketSettings {
        website_configuration,
        public_access_block_configuration: b.public_access_block_configuration,
        other_properties: copy_pairs(&b.other_properties),
    }
}

fn push_statement(v: &mut Vec<Statement>, a: &str, b: &str, c: String, d: &str)
    ensures
        statements_view(final(v)@) == statements_view(old(v)@).push((a@, b@, c@, d@)),
{
    let ghost before = statements_view(v@);
    let ghost cv = c@;
    v.push((to_string(a), to_string(b), c, to_string(d)));
    assert(statements_view(v@) =~= before.push((a@, b@, cv, d@)));
}

/// Plans the bucket of the user's module: the bucket `hiragenbucket<module>` (without
/// underscores) with the given properties, set up as a website when asked (see
/// `website_bucket`) together with a public-read policy `<bucket>policy`; and, unless they
/// are turned off, the cleanup resources: a role that may list the bucket and delete its
/// objects, a Node.js function that empties the bucket when the stack is deleted, and the
/// custom resource that calls it. The bucket's logical name is set as the module's
/// `LOGICAL_BUCKET_NAME` output.
pub fn config(myinput: &mut Input, l0core: &mut L0Core) -> (r: S3Plan)
    requires
        old(l0core).wf(),
    ensures
        *final(myinput) == *old(myinput),
        final(l0core).wf(),
        final(l0core).same_names(old(l0core)),
        ({
            let m = old(l0core).lvl3_module_name@;
            let bucket = logical_name("hiragenbucket"@, m);
            let given = bucket_view(old(myinput).extra_bucket_settings);
            &&& final(l0core).outputs() == nested_put(
                old(l0core).outputs(),
                old(l0core).current_module_name@,
                "LOGICAL_BUCKET_NAME"@,
                bucket,
            )
            &&& r.logical_bucket_name@ == bucket
            &&& bucket_view(r.bucket) == if old(myinput).is_website { website_bucket(given) } else { given }
            &&& (old(myinput).is_website ==> (r.bucket_policy matches Some(p) && p.logical_policy_name@
                == bucket + "policy"@ && p.bucket@ == ref_text(bucket) && statements_view(p.statements@)
                == website_statements(bucket)))
            &&& (!old(myinput).is_website ==> r.bucket_policy is None)
            &&& (old(myinput).dont_create_cleanup_resources ==> r.cleanup is None)
            &&& (!old(myinput).dont_create_cleanup_resources ==> (r.cleanup matches Some(c) && {
                &&& c.logical_role_name@ == logical_name("hiragenrole"@, m)
                &&& c.policy_name@ == "hira-gen-policy-"@ + m
                &&& statements_view(c.statements@) == cleanup_statements(bucket)
                &&& c.role_description@ == "auto generated cleanup resource for "@ + m
                &&& c.assume_role.0@ == "2012-10-17"@
                &&& c.assume_role.1@ == "Allow"@
                &&& c.assume_role.2@ == "lambda.amazonaws.com"@
                &&& c.assume_role.3@ == "sts:AssumeRole"@
                &&& c.logical_fn_name@ == logical_name("hiragencleanupfunction"@, m)
                &&& c.function_runtime@ == "nodejs16.x"@
                &&& c.function_handler@ == "index.handler"@
                &&& c.function_role@ == arn_of_text(logical_name("hiragenrole"@, m))
                &&& c.function_code@ == cleanup_code()
                &&& c.logical_cleanup_resource_name@ == logical_name("hiragencustomcleanup"@, m)
                &&& c.cleanup.lambda_logical_id@ == logical_name("hiragencleanupfunction"@, m)
                &&& c.cleanup.bucket_logical_id@ == bucket
            }))
        }),
{
    let user_mod_name = l0core.users_module_name();
    let name = concat3("hiragenbucket", user_mod_name.as_str(), "");
    let logical_bucket_name = remove_char(name.as_str(), '_');
    let mut bucket = copy_bucket(&myinput.extra_bucket_settings);
    let ghost given = bucket_view(bucket);
    proof {
        reveal_strlit("");
        assert("hiragenbucket"@ + user_mod_name@ + ""@ =~= "hiragenbucket"@ + user_mod_name@);
        assert(logical_bucket_name@ + "policy"@ + ""@ =~= logical_bucket_name@ + "policy"@);
    }
    let bucket_policy = if myinput.is_website {
        bucket.website_configuration = Some(
            WebsiteConfiguration {
                index_document: Some(to_string("index.html")),
                error_document: Some(to_string("index.html")),
            },
        );
        let block = match bucket.public_access_block_configuration {
            Some(p) => PublicAccessBlock { block_public_policy: Some(false), ..p },
            None => PublicAccessBlock {
                block_public_acls: None,
                block_public_policy: Some(false),
                ignore_public_acls: None,
                restrict_public_buckets: None,
            },
        };
        bucket.public_access_block_configuration = Some(block);
        assert(bucket_view(bucket) == website_bucket(given));
        let arn = concat3("arn:aws:s3:::${", logical_bucket_name.as_str(), "}/*");
        let mut statements: Vec<Statement> = Vec::new();
        push_statement(&mut statements, "Allow", "s3:GetObject", sub_of(arn.as_str()), "*");
        assert(statements_view(statements@) =~= website_statements(logical_bucket_name@));
        Some(
            BucketPolicyPlan {
                logical_policy_name: concat3(logical_bucket_name.as_str(), "policy", ""),
                bucket: concat3("{\"Ref\":\"", logical_bucket_name.as_str(), "\"}"),
                statements,
            },
        )
    } else {
        None
    };
    l0core.set_output("LOGICAL_BUCKET_NAME", logical_bucket_name.as_str());
    let cleanup = if myinput.dont_create_cleanup_resources {
        None
    } else {
        let role = concat3("hiragenrole", user_mod_name.as_str(), "");
        let func = concat3("hiragencleanupfunction", user_mod_name.as_str(), "");
        let custom = concat3("hiragencustomcleanup", user_mod_name.as_str(), "");
        let logical_fn_name = remove_char(func.as_str(), '_');
        let logical_role_name = remove_char(role.as_str(), '_');
        proof {
            assert("hiragenrole"@ + user_mod_name@ + ""@ =~= "hiragenrole"@ + user_mod_name@);
            assert("hiragencleanupfunction"@ + user_mod_name@ + ""@ =~= "hiragencleanupfunction"@
                + user_mod_name@);
            assert("hiragencustomcleanup"@ + user_mod_name@ + ""@ =~= "hiragencustomcleanup"@
                + user_mod_name@);
            assert("hira-gen-policy-"@ + user_mod_name@ + ""@ =~= "hira-gen-policy-"@
                + user_mod_name@);
            assert("auto generated cleanup resource for "@ + user_mod_name@ + ""@
                =~= "auto generated cleanup resource for "@ + user_mod_name@);
        }
        let arn = concat3("arn:aws:s3:::${", logical_bucket_name.as_str(), "}/*");
        let mut statements: Vec<Statement> = Vec::new();
        push_statement(&mut statements, "Allow", "s3:ListBucket", arn_of(logical_bucket_name.as_str()), "");
        push_statement(&mut statements, "Allow", "s3:DeleteObject", sub_of(arn.as_str()), "");
        assert(statements_view(statements@) =~= cleanup_statements(logical_bucket_name@));
        Some(
            CleanupPlan {
                function_role: arn_of(logical_role_name.as_str()),
                logical_role_name,
                policy_name: concat3("hira-gen-policy-", user_mod_name.as_str(), ""),
                statements,
                role_description: concat3(
                    "auto generated cleanup resource for ",
                    user_mod_name.as_str(),
                    "",
                ),
                assume_role: (
                    to_string("2012-10-17"),
                    to_string("Allow"),
                    to_string("lambda.amazonaws.com"),
                    to_string("sts:AssumeRole"),
                ),
                logical_fn_name: logical_fn_name.clone(),
                function_runtime: to_string("nodejs16.x"),
                function_handler: to_string("index.handler"),
                function_code: cleanup_code_string(),
                logical_cleanup_resource_name: remove_char(custom.as_str(), '_'),
                cleanup: CleanupResource {
                    lambda_logical_id: logical_fn_name,
                    bucket_logical_id: logical_bucket_name.clone(),
                },
            },
        )
    };
    S3Plan { logical_bucket_name, bucket, bucket_policy, cleanup }
}

} // verus!
