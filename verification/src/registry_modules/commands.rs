use vstd::prelude::*;
use vstd::string::*;

use crate::text::to_string;

verus! {

/// The command that picks a random name for the artifact bucket of a region.
pub open spec fn random_name_cmd_text(region_u: Seq<char>) -> Seq<char> {
    "if [[ ! -e ./s3artifactbucket_"@ + region_u + ".txt ]]; then randomid=($(echo $(md5sum ../* 2>&1) | md5sum)); artifactbucketname_"@ + region_u + "=\"hiraartifacts-$randomid\"; fi"@
}

/// The text of `random_name_cmd_text` as a string.
pub fn random_name_cmd_text_string(region_u: &str) -> (r: String)
    ensures
        r@ == random_name_cmd_text(region_u@),
{
    let mut out = to_string("if [[ ! -e ./s3artifactbucket_");
    out.append(region_u);
    out.append(".txt ]]; then randomid=($(echo $(md5sum ../* 2>&1) | md5sum)); artifactbucketname_");
    out.append(region_u);
    out.append("=\"hiraartifacts-$randomid\"; fi");
    out
}

/// The command that creates the artifact bucket of a region.
pub open spec fn create_bucket_cmd_text(region_u: Seq<char>, region: Seq<char>) -> Seq<char> {
    "if [[ ! -e ./s3artifactbucket_"@ + region_u + ".txt ]]; then aws s3api create-bucket --bucket \"$artifactbucketname_"@ + region_u + "\" --create-bucket-configuration LocationConstraint="@ + region + "; fi"@
}

/// The text of `create_bucket_cmd_text` as a string.
pub fn create_bucket_cmd_text_string(region_u: &str, region: &str) -> (r: String)
    ensures
        r@ == create_bucket_cmd_text(region_u@, region@),
{
    let mut out = to_string("if [[ ! -e ./s3artifactbucket_");
    out.append(region_u);
    out.append(".txt ]]; then aws s3api create-bucket --bucket \"$artifactbucketname_");
    out.append(region_u);
    out.append("\" --create-bucket-configuration LocationConstraint=");
    out.append(region);
    out.append("; fi");
    out
}

/// The command that saves the name of the artifact bucket of a region.
pub open spec fn save_bucket_name_cmd_text(region_u: Seq<char>) -> Seq<char> {
    "if [[ ! -e ./s3artifactbucket_"@ + region_u + ".txt ]]; then echo \"$artifactbucketname_"@ + region_u + "\" > ./s3artifactbucket_"@ + region_u + ".txt; fi"@
}

/// The text of `save_bucket_name_cmd_text` as a string.
pub fn save_bucket_name_cmd_text_string(region_u: &str) -> (r: String)
    ensures
        r@ == save_bucket_name_cmd_text(region_u@),
{
    let mut out = to_string("if [[ ! -e ./s3artifactbucket_");
    out.append(region_u);
    out.append(".txt ]]; then echo \"$artifactbucketname_");
    out.append(region_u);
    out.append("\" > ./s3artifactbucket_");
    out.append(region_u);
    out.append(".txt; fi");
    out
}

/// The command that reads the artifact bucket name back for a function.
pub open spec fn get_bucket_name_cmd_text(name: Seq<char>, region_u: Seq<char>) -> Seq<char> {
    "artifactbucketname"@ + name + "=$(< ./s3artifactbucket_"@ + region_u + ".txt)"@
}

/// The text of `get_bucket_name_cmd_text` as a string.
pub fn get_bucket_name_cmd_text_string(name: &str, region_u: &str) -> (r: String)
    ensures
        r@ == get_bucket_name_cmd_text(name@, region_u@),
{
    let mut out = to_string("artifactbucketname");
    out.append(name);
    out.append("=$(< ./s3artifactbucket_");
    out.append(region_u);
    out.append(".txt)");
    out
}

/// The command that cross-compiles a function.
pub open spec fn compile_cmd_text(name: Seq<char>, target: Seq<char>, target_dir: Seq<char>) -> Seq<char> {
    "CARGO_WASMTYPEGEN_FILEOPS=\"0\" RUSTFLAGS=\"--cfg "@ + name + "\" cross rustc --crate-type=bin --release --target "@ + target + " --target-dir "@ + target_dir
}

/// The text of `compile_cmd_text` as a string.
pub fn compile_cmd_text_string(name: &str, target: &str, target_dir: &str) -> (r: String)
    ensures
        r@ == compile_cmd_text(name@, target@, target_dir@),
{
    let mut out = to_string("CARGO_WASMTYPEGEN_FILEOPS=\"0\" RUSTFLAGS=\"--cfg ");
    out.append(name);
    out.append("\" cross rustc --crate-type=bin --release --target ");
    out.append(target);
    out.append(" --target-dir ");
    out.append(target_dir);
    out
}

/// The command that copies the compiled function to `bootstrap`.
pub open spec fn copy_cmd_text(target_dir: Seq<char>, target: Seq<char>, crate_name: Seq<char>) -> Seq<char> {
    "cp ./"@ + target_dir + "/"@ + target + "/release/"@ + crate_name + " ./bootstrap"@
}

/// The text of `copy_cmd_text` as a string.
pub fn copy_cmd_text_string(target_dir: &str, target: &str, crate_name: &str) -> (r: String)
    ensures
        r@ == copy_cmd_text(target_dir@, target@, crate_name@),
{
    let mut out = to_string("cp ./");
    out.append(target_dir);
    out.append("/");
    out.append(target);
    out.append("/release/");
    out.append(crate_name);
    out.append(" ./bootstrap");
    out
}

/// The command that records the checksum of `bootstrap`.
pub open spec fn md5_cmd_text(name: Seq<char>) -> Seq<char> {
    "md5"@ + name + "=($(md5sum ./bootstrap))"@
}

/// The text of `md5_cmd_text` as a string.
pub fn md5_cmd_text_string(name: &str) -> (r: String)
    ensures
        r@ == md5_cmd_text(name@),
{
    let mut out = to_string("md5");
    out.append(name);
    out.append("=($(md5sum ./bootstrap))");
    out
}

/// The command that zips `bootstrap`.
pub open spec fn zip_cmd_text(name: Seq<char>) -> Seq<char> {
    "zip -r "@ + name + "_$md5"@ + name + ".zip bootstrap"@
}

/// The text of `zip_cmd_text` as a string.
pub fn zip_cmd_text_string(name: &str) -> (r: String)
    ensures
        r@ == zip_cmd_text(name@),
{
    let mut out = to_string("zip -r ");
    out.append(name);
    out.append("_$md5");
    out.append(name);
    out.append(".zip bootstrap");
    out
}

/// The command that uploads the zipped function.
pub open spec fn upload_cmd_text(name: Seq<char>) -> Seq<char> {
    "aws s3 cp "@ + name + "_$md5"@ + name + ".zip \"s3://$artifactbucketname"@ + name + "/\""@
}

/// The text of `upload_cmd_text` as a string.
pub fn upload_cmd_text_string(name: &str) -> (r: String)
    ensures
        r@ == upload_cmd_text(name@),
{
    let mut out = to_string("aws s3 cp ");
    out.append(name);
    out.append("_$md5");
    out.append(name);
    out.append(".zip \"s3://$artifactbucketname");
    out.append(name);
    out.append("/\"");
    out
}

/// The command that deploys the template to a region.
pub open spec fn deploy_cmd_text(region: Seq<char>) -> Seq<char> {
    "AWS_REGION=\""@ + region + "\" aws --region "@ + region + " cloudformation deploy --stack-name hira-gen-stack --template-file deploy.yml --capabilities CAPABILITY_NAMED_IAM --parameter-overrides DefaultParam=hira "@
}

/// The text of `deploy_cmd_text` as a string.
pub fn deploy_cmd_text_string(region: &str) -> (r: String)
    ensures
        r@ == deploy_cmd_text(region@),
{
    let mut out = to_string("AWS_REGION=\"");
    out.append(region);
    out.append("\" aws --region ");
    out.append(region);
    out.append(" cloudformation deploy --stack-name hira-gen-stack --template-file deploy.yml --capabilities CAPABILITY_NAMED_IAM --parameter-overrides DefaultParam=hira ");
    out
}

/// The value given to the bucket parameter of a function.
pub open spec fn bucket_param_value_text(bucket_param: Seq<char>, name: Seq<char>) -> Seq<char> {
    bucket_param + "=$artifactbucketname"@ + name
}

/// The text of `bucket_param_value_text` as a string.
pub fn bucket_param_value_text_string(bucket_param: &str, name: &str) -> (r: String)
    ensures
        r@ == bucket_param_value_text(bucket_param@, name@),
{
    let mut out = to_string(bucket_param);
    out.append("=$artifactbucketname");
    out.append(name);
    out
}

/// The value given to the key parameter of a function.
pub open spec fn key_param_value_text(key_param: Seq<char>, name: Seq<char>) -> Seq<char> {
    key_param + "="@ + name + "_$md5"@ + name + ".zip"@
}

/// The text of `key_param_value_text` as a string.
pub fn key_param_value_text_string(key_param: &str, name: &str) -> (r: String)
    ensures
        r@ == key_param_value_text(key_param@, name@),
{
    let mut out = to_string(key_param);
    out.append("=");
    out.append(name);
    out.append("_$md5");
    out.append(name);
    out.append(".zip");
    out
}

/// The declaration of a template parameter of type string.
pub open spec fn param_type_text(param: Seq<char>) -> Seq<char> {
    "    "@ + param + ":\n        Type: String"@
}

/// The text of `param_type_text` as a string.
pub fn param_type_text_string(param: &str) -> (r: String)
    ensures
        r@ == param_type_text(param@),
{
    let mut out = to_string("    ");
    out.append(param);
    out.append(":\n        Type: String");
    out
}

} // verus!
