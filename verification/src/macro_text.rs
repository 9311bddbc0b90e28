use vstd::prelude::*;
use vstd::string::*;

use crate::text::to_string;

verus! {

/// The function that makes an S3 client for the region, written once per crate.
pub open spec fn s3_client_fn_text(region: Seq<char>) -> Seq<char> {
    "\n// TODO: save the client somehow. dont re-create for each request...\npub async fn make_s3_client() -> aws_sdk_s3::Client {\n    let region_provider = aws_config::meta::region::RegionProviderChain::default_provider().or_else("@ + region + ");\n    let sdk_config = aws_config::from_env().region(region_provider).load().await;\n    aws_sdk_s3::Client::new(&sdk_config)\n}"@
}

/// The text of `s3_client_fn_text` as a string.
pub fn s3_client_fn_text_string(region: &str) -> (r: String)
    ensures
        r@ == s3_client_fn_text(region@),
{
    let mut out = to_string("\n// TODO: save the client somehow. dont re-create for each request...\npub async fn make_s3_client() -> aws_sdk_s3::Client {\n    let region_provider = aws_config::meta::region::RegionProviderChain::default_provider().or_else(");
    out.append(region);
    out.append(");\n    let sdk_config = aws_config::from_env().region(region_provider).load().await;\n    aws_sdk_s3::Client::new(&sdk_config)\n}");
    out
}

/// The functions that put objects into the bucket, written inside the module.
pub open spec fn s3_object_fns_text(bucket_name: Seq<char>) -> Seq<char> {
    "\n    pub async fn put_object_inner(\n        client: &aws_sdk_s3::Client,\n        key: &str,\n        data: Vec<u8>,\n    ) -> Result<(), aws_sdk_s3::Error> {\n        self::put_object_builder(client, key, data).send().await?;\n        Ok(())\n    }\n    pub fn put_object_builder(client: &aws_sdk_s3::Client, key: &str, data: Vec<u8>) -> aws_sdk_s3::client::fluent_builders::PutObject {\n        let b = aws_sdk_s3::types::ByteStream::from(data);\n        client\n            .put_object()\n            .bucket(\""@ + bucket_name + "\")\n            .key(key)\n            .body(b)\n    }\n    pub async fn put_object(key: &str, data: Vec<u8>) -> Result<(), aws_sdk_s3::Error> {\n        let client = make_s3_client().await;\n        self::put_object_inner(&client, key, data).await\n    }"@
}

/// The text of `s3_object_fns_text` as a string.
pub fn s3_object_fns_text_string(bucket_name: &str) -> (r: String)
    ensures
        r@ == s3_object_fns_text(bucket_name@),
{
    let mut out = to_string("\n    pub async fn put_object_inner(\n        client: &aws_sdk_s3::Client,\n        key: &str,\n        data: Vec<u8>,\n    ) -> Result<(), aws_sdk_s3::Error> {\n        self::put_object_builder(client, key, data).send().await?;\n        Ok(())\n    }\n    pub fn put_object_builder(client: &aws_sdk_s3::Client, key: &str, data: Vec<u8>) -> aws_sdk_s3::client::fluent_builders::PutObject {\n        let b = aws_sdk_s3::types::ByteStream::from(data);\n        client\n            .put_object()\n            .bucket(\"");
    out.append(bucket_name);
    out.append("\")\n            .key(key)\n            .body(b)\n    }\n    pub async fn put_object(key: &str, data: Vec<u8>) -> Result<(), aws_sdk_s3::Error> {\n        let client = make_s3_client().await;\n        self::put_object_inner(&client, key, data).await\n    }");
    out
}

/// The `main` that runs the module's `_init` when the crate is built with the module's cfg.
pub open spec fn s3_init_main_text(module_name: Seq<char>) -> Seq<char> {
    "\n    #[cfg("@ + module_name + ")]\n    #[tokio::main]\n    async fn main() -> Result<(), ()> {\n        let _ = "@ + module_name + "::_init().await;\n        Ok(())\n    }"@
}

/// The text of `s3_init_main_text` as a string.
pub fn s3_init_main_text_string(module_name: &str) -> (r: String)
    ensures
        r@ == s3_init_main_text(module_name@),
{
    let mut out = to_string("\n    #[cfg(");
    out.append(module_name);
    out.append(")]\n    #[tokio::main]\n    async fn main() -> Result<(), ()> {\n        let _ = ");
    out.append(module_name);
    out.append("::_init().await;\n        Ok(())\n    }");
    out
}

/// The post-deploy step that runs the module's `_init`.
pub open spec fn s3_init_cmd_text(region: Seq<char>, module_name: Seq<char>) -> Seq<char> {
    "AWS_REGION="@ + region + " RUSTFLAGS=\"--cfg "@ + module_name + "\" cargo run --target-dir hira/cross-target-"@ + module_name
}

/// The text of `s3_init_cmd_text` as a string.
pub fn s3_init_cmd_text_string(region: &str, module_name: &str) -> (r: String)
    ensures
        r@ == s3_init_cmd_text(region@, module_name@),
{
    let mut out = to_string("AWS_REGION=");
    out.append(region);
    out.append(" RUSTFLAGS=\"--cfg ");
    out.append(module_name);
    out.append("\" cargo run --target-dir hira/cross-target-");
    out.append(module_name);
    out
}

/// The bucket, distribution and DNS record macros of a static website.
pub open spec fn static_website_text(bucket_name: Seq<char>, bucket_domain: Seq<char>, url: Seq<char>, arn: Seq<char>, cdn_resource_name: Seq<char>) -> Seq<char> {
    "\n#[hira::create_s3({\n    name: \""@ + bucket_name + "\",\n    public_website: {},\n})]\npub mod my_website_bucket {}\n\n#[hira::create_cloudfront_distribution({\n    origins_and_behaviors: [{\n        domain_name: \""@ + bucket_domain + "\",\n    }],\n    name: \""@ + bucket_name + "\",\n    aliases: [\""@ + url + "\"],\n    acm_certificate_arn: \""@ + arn + "\",\n})]\npub mod my_cdn {}\n\n\n#[hira::create_route53_record({\n    record_type: \"A\",\n    name: \""@ + url + "\",\n    alias_target_dns_name: \"!GetAtt "@ + cdn_resource_name + ".DomainName\",\n    alias_target_hosted_zone_id: \"Z2FDTNDATAQYW2\",\n})]\npub mod my_record {}"@
}

/// The text of `static_website_text` as a string.
pub fn static_website_text_string(bucket_name: &str, bucket_domain: &str, url: &str, arn: &str, cdn_resource_name: &str) -> (r: String)
    ensures
        r@ == static_website_text(bucket_name@, bucket_domain@, url@, arn@, cdn_resource_name@),
{
    let mut out = to_string("\n#[hira::create_s3({\n    name: \"");
    out.append(bucket_name);
    out.append("\",\n    public_website: {},\n})]\npub mod my_website_bucket {}\n\n#[hira::create_cloudfront_distribution({\n    origins_and_behaviors: [{\n        domain_name: \"");
    out.append(bucket_domain);
    out.append("\",\n    }],\n    name: \"");
    out.append(bucket_name);
    out.append("\",\n    aliases: [\"");
    out.append(url);
    out.append("\"],\n    acm_certificate_arn: \"");
    out.append(arn);
    out.append("\",\n})]\npub mod my_cdn {}\n\n\n#[hira::create_route53_record({\n    record_type: \"A\",\n    name: \"");
    out.append(url);
    out.append("\",\n    alias_target_dns_name: \"!GetAtt ");
    out.append(cdn_resource_name);
    out.append(".DomainName\",\n    alias_target_hosted_zone_id: \"Z2FDTNDATAQYW2\",\n})]\npub mod my_record {}");
    out
}

/// The function that makes a Lambda client for the region, written once per crate.
pub open spec fn lambda_client_fn_text(region: Seq<char>) -> Seq<char> {
    "\n        // TODO: save the client somehow. dont re-create for each request...\n        pub async fn make_lambda_client() -> aws_sdk_lambda::Client {\n            let region_provider = aws_config::meta::region::RegionProviderChain::default_provider().or_else("@ + region + ");\n            let sdk_config = aws_config::from_env().region(region_provider).load().await;\n            aws_sdk_lambda::Client::new(&sdk_config)\n        }\n    "@
}

/// The text of `lambda_client_fn_text` as a string.
pub fn lambda_client_fn_text_string(region: &str) -> (r: String)
    ensures
        r@ == lambda_client_fn_text(region@),
{
    let mut out = to_string("\n        // TODO: save the client somehow. dont re-create for each request...\n        pub async fn make_lambda_client() -> aws_sdk_lambda::Client {\n            let region_provider = aws_config::meta::region::RegionProviderChain::default_provider().or_else(");
    out.append(region);
    out.append(");\n            let sdk_config = aws_config::from_env().region(region_provider).load().await;\n            aws_sdk_lambda::Client::new(&sdk_config)\n        }\n    ");
    out
}

/// The function that invokes the deployed function and reads its answer.
pub open spec fn lambda_invoke_safe_text(func_name: Seq<char>, use_type: Seq<char>, ret_type: Seq<char>) -> Seq<char> {
    "\n        async fn "@ + func_name + "_safe(n: "@ + use_type + ") -> Result<"@ + ret_type + ", lambda_runtime::Error> {\n            let payload = match serde_json::to_string(&n) {\n                Ok(p) => p,\n                Err(e) => return Err(e.into()),\n            };\n            let c = make_lambda_client().await;\n            let res = c.invoke().function_name(\""@ + func_name + "\")\n                .payload(aws_sdk_lambda::types::Blob::new(payload))\n                .send().await;\n            match res {\n                Ok(out) => {\n                    if let Some(payload) = out.payload() {\n                        let payload = payload.as_ref();\n                        match serde_json::from_slice::<"@ + ret_type + ">(&payload) {\n                            Ok(s) => Ok(s),\n                            Err(e) => {\n                                Err(lambda_runtime::Error::from(e))\n                            }\n                        }\n                    } else {\n                        Err(lambda_runtime::Error::from(\"Empty response from lambda\"))\n                    }\n                }\n                Err(err) => {\n                    Err(err.into())\n                }\n            }\n        }\n    "@
}

/// The text of `lambda_invoke_safe_text` as a string.
pub fn lambda_invoke_safe_text_string(func_name: &str, use_type: &str, ret_type: &str) -> (r: String)
    ensures
        r@ == lambda_invoke_safe_text(func_name@, use_type@, ret_type@),
{
    let mut out = to_string("\n        async fn ");
    out.append(func_name);
    out.append("_safe(n: ");
    out.append(use_type);
    out.append(") -> Result<");
    out.append(ret_type);
    out.append(", lambda_runtime::Error> {\n            let payload = match serde_json::to_string(&n) {\n                Ok(p) => p,\n                Err(e) => return Err(e.into()),\n            };\n            let c = make_lambda_client().await;\n            let res = c.invoke().function_name(\"");
    out.append(func_name);
    out.append("\")\n                .payload(aws_sdk_lambda::types::Blob::new(payload))\n                .send().await;\n            match res {\n                Ok(out) => {\n                    if let Some(payload) = out.payload() {\n                        let payload = payload.as_ref();\n                        match serde_json::from_slice::<");
    out.append(ret_type);
    out.append(">(&payload) {\n                            Ok(s) => Ok(s),\n                            Err(e) => {\n                                Err(lambda_runtime::Error::from(e))\n                            }\n                        }\n                    } else {\n                        Err(lambda_runtime::Error::from(\"Empty response from lambda\"))\n                    }\n                }\n                Err(err) => {\n                    Err(err.into())\n                }\n            }\n        }\n    ");
    out
}

/// The function that invokes the deployed function, panicking when that fails.
pub open spec fn lambda_invoke_text(func_name: Seq<char>, use_type: Seq<char>, ret_type: Seq<char>) -> Seq<char> {
    "\n        async fn "@ + func_name + "(n: "@ + use_type + ") -> "@ + ret_type + " {\n            match "@ + func_name + "_safe(n).await {\n                Ok(r) => r,\n                Err(e) => {\n                    println!(\"Failed to invoke "@ + func_name + ": {:?}\", e);\n                    // purposefully hide errors from being returned from lambda.\n                    // the real errors can be found in cloudwatch.\n                    panic!(\"internal error\");\n                }\n            }\n        }\n    "@
}

/// The text of `lambda_invoke_text` as a string.
pub fn lambda_invoke_text_string(func_name: &str, use_type: &str, ret_type: &str) -> (r: String)
    ensures
        r@ == lambda_invoke_text(func_name@, use_type@, ret_type@),
{
    let mut out = to_string("\n        async fn ");
    out.append(func_name);
    out.append("(n: ");
    out.append(use_type);
    out.append(") -> ");
    out.append(ret_type);
    out.append(" {\n            match ");
    out.append(func_name);
    out.append("_safe(n).await {\n                Ok(r) => r,\n                Err(e) => {\n                    println!(\"Failed to invoke ");
    out.append(func_name);
    out.append(": {:?}\", e);\n                    // purposefully hide errors from being returned from lambda.\n                    // the real errors can be found in cloudwatch.\n                    panic!(\"internal error\");\n                }\n            }\n        }\n    ");
    out
}

/// The `main` of the function's binary.
pub open spec fn lambda_main_text(func_name: Seq<char>) -> Seq<char> {
    "\n        #[cfg("@ + func_name + ")]\n        #[tokio::main]\n        async fn main() -> Result<(), lambda_runtime::Error> {\n            let func = lambda_runtime::service_fn(lambda_service_func);\n            lambda_runtime::run(func).await?;\n            Ok(())\n        }\n    "@
}

/// The text of `lambda_main_text` as a string.
pub fn lambda_main_text_string(func_name: &str) -> (r: String)
    ensures
        r@ == lambda_main_text(func_name@),
{
    let mut out = to_string("\n        #[cfg(");
    out.append(func_name);
    out.append(")]\n        #[tokio::main]\n        async fn main() -> Result<(), lambda_runtime::Error> {\n            let func = lambda_runtime::service_fn(lambda_service_func);\n            lambda_runtime::run(func).await?;\n            Ok(())\n        }\n    ");
    out
}

/// The service function that hands the event to the user's function.
pub open spec fn lambda_prototype_text(func_name: Seq<char>, use_type: Seq<char>, use_ret: Seq<char>, use_body: Seq<char>) -> Seq<char> {
    "\n        #[cfg("@ + func_name + ")]\n        async fn lambda_service_func(event: lambda_runtime::LambdaEvent<"@ + use_type + ">) -> "@ + use_ret + " { "@ + use_body + " }"@
}

/// The text of `lambda_prototype_text` as a string.
pub fn lambda_prototype_text_string(func_name: &str, use_type: &str, use_ret: &str, use_body: &str) -> (r: String)
    ensures
        r@ == lambda_prototype_text(func_name@, use_type@, use_ret@, use_body@),
{
    let mut out = to_string("\n        #[cfg(");
    out.append(func_name);
    out.append(")]\n        async fn lambda_service_func(event: lambda_runtime::LambdaEvent<");
    out.append(use_type);
    out.append(">) -> ");
    out.append(use_ret);
    out.append(" { ");
    out.append(use_body);
    out.append(" }");
    out
}

/// The build step of the function's binary.
pub open spec fn lambda_build_cmd_text(func_name: Seq<char>, target: Seq<char>) -> Seq<char> {
    "RUSTFLAGS=\"--cfg "@ + func_name + "\" cross build --release --target "@ + target + " --target-dir hira/cross-target-"@ + func_name
}

/// The text of `lambda_build_cmd_text` as a string.
pub fn lambda_build_cmd_text_string(func_name: &str, target: &str) -> (r: String)
    ensures
        r@ == lambda_build_cmd_text(func_name@, target@),
{
    let mut out = to_string("RUSTFLAGS=\"--cfg ");
    out.append(func_name);
    out.append("\" cross build --release --target ");
    out.append(target);
    out.append(" --target-dir hira/cross-target-");
    out.append(func_name);
    out
}

/// The step that copies the binary to `./bootstrap`.
pub open spec fn lambda_copy_cmd_text(func_name: Seq<char>, target: Seq<char>, bin_name: Seq<char>) -> Seq<char> {
    "cp hira/cross-target-"@ + func_name + "/"@ + target + "/release/"@ + bin_name + " ./bootstrap"@
}

/// The text of `lambda_copy_cmd_text` as a string.
pub fn lambda_copy_cmd_text_string(func_name: &str, target: &str, bin_name: &str) -> (r: String)
    ensures
        r@ == lambda_copy_cmd_text(func_name@, target@, bin_name@),
{
    let mut out = to_string("cp hira/cross-target-");
    out.append(func_name);
    out.append("/");
    out.append(target);
    out.append("/release/");
    out.append(bin_name);
    out.append(" ./bootstrap");
    out
}

/// The step that hashes the binary.
pub open spec fn lambda_md5_cmd_text(func_name: Seq<char>) -> Seq<char> {
    "md5"@ + func_name + "=($(md5sum ./bootstrap))"@
}

/// The text of `lambda_md5_cmd_text` as a string.
pub fn lambda_md5_cmd_text_string(func_name: &str) -> (r: String)
    ensures
        r@ == lambda_md5_cmd_text(func_name@),
{
    let mut out = to_string("md5");
    out.append(func_name);
    out.append("=($(md5sum ./bootstrap))");
    out
}

/// The step that zips the binary under its hash.
pub open spec fn lambda_zip_cmd_text(func_name: Seq<char>) -> Seq<char> {
    "zip -r "@ + func_name + "_$md5"@ + func_name + ".zip bootstrap"@
}

/// The text of `lambda_zip_cmd_text` as a string.
pub fn lambda_zip_cmd_text_string(func_name: &str) -> (r: String)
    ensures
        r@ == lambda_zip_cmd_text(func_name@),
{
    let mut out = to_string("zip -r ");
    out.append(func_name);
    out.append("_$md5");
    out.append(func_name);
    out.append(".zip bootstrap");
    out
}

/// The name of the zip file, with the hash as a shell variable.
pub open spec fn lambda_zip_name_text(func_name: Seq<char>) -> Seq<char> {
    func_name + "_$md5"@ + func_name + ".zip"@
}

/// The text of `lambda_zip_name_text` as a string.
pub fn lambda_zip_name_text_string(func_name: &str) -> (r: String)
    ensures
        r@ == lambda_zip_name_text(func_name@),
{
    let mut out = to_string(func_name);
    out.append("_$md5");
    out.append(func_name);
    out.append(".zip");
    out
}

/// The step that moves the zip file to the output directory.
pub open spec fn lambda_move_cmd_text(func_name: Seq<char>) -> Seq<char> {
    "mkdir -p ./hira/out && mv "@ + func_name + "_$md5"@ + func_name + ".zip ./hira/out/"@
}

/// The text of `lambda_move_cmd_text` as a string.
pub fn lambda_move_cmd_text_string(func_name: &str) -> (r: String)
    ensures
        r@ == lambda_move_cmd_text(func_name@),
{
    let mut out = to_string("mkdir -p ./hira/out && mv ");
    out.append(func_name);
    out.append("_$md5");
    out.append(func_name);
    out.append(".zip ./hira/out/");
    out
}

/// The declaration of a string constant.
pub open spec fn const_decl_text(key: Seq<char>, value: Seq<char>) -> Seq<char> {
    "pub const "@ + key + ": &'static str = \""@ + value + "\";"@
}

/// The text of `const_decl_text` as a string.
pub fn const_decl_text_string(key: &str, value: &str) -> (r: String)
    ensures
        r@ == const_decl_text(key@, value@),
{
    let mut out = to_string("pub const ");
    out.append(key);
    out.append(": &'static str = \"");
    out.append(value);
    out.append("\";");
    out
}

} // verus!
