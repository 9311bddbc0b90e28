use vstd::prelude::*;
use vstd::string::*;

use crate::text::to_string;

verus! {

/// The bucket resource.
pub open spec fn s3_bucket_text(resource_name: Seq<char>, access_control: Seq<char>, bucket_name: Seq<char>) -> Seq<char> {
    "\n    S3Bucket"@ + resource_name + ":\n        Type: AWS::S3::Bucket\n        Properties:\n            AccessControl: "@ + access_control + "\n            BucketName: "@ + bucket_name + "\n"@
}

/// The text of `s3_bucket_text` as a string.
pub fn s3_bucket_text_string(resource_name: &str, access_control: &str, bucket_name: &str) -> (r: String)
    ensures
        r@ == s3_bucket_text(resource_name@, access_control@, bucket_name@),
{
    let mut out = to_string("\n    S3Bucket");
    out.append(resource_name);
    out.append(":\n        Type: AWS::S3::Bucket\n        Properties:\n            AccessControl: ");
    out.append(access_control);
    out.append("\n            BucketName: ");
    out.append(bucket_name);
    out.append("\n");
    out
}

/// The website settings of a bucket resource.
pub open spec fn s3_website_config_text(index: Seq<char>, error: Seq<char>) -> Seq<char> {
    "            WebsiteConfiguration:\n                IndexDocument: "@ + index + "\n                ErrorDocument: "@ + error + "\n"@
}

/// The text of `s3_website_config_text` as a string.
pub fn s3_website_config_text_string(index: &str, error: &str) -> (r: String)
    ensures
        r@ == s3_website_config_text(index@, error@),
{
    let mut out = to_string("            WebsiteConfiguration:\n                IndexDocument: ");
    out.append(index);
    out.append("\n                ErrorDocument: ");
    out.append(error);
    out.append("\n");
    out
}

/// The policy that makes a website bucket readable.
pub open spec fn s3_website_policy_text(resource_name: Seq<char>) -> Seq<char> {
    "\n    S3BucketWebsitePolicy"@ + resource_name + ":\n        Type: AWS::S3::BucketPolicy\n        Properties:\n            Bucket: !Ref S3Bucket"@ + resource_name + "\n            PolicyDocument:\n                Version: '2012-10-17'\n                Statement:\n                  - Action: 's3:GetObject'\n                    Effect: Allow\n                    Principal: '*'\n                    Resource: !Sub 'arn:aws:s3:::${S3Bucket"@ + resource_name + "}/*'\n"@
}

/// The text of `s3_website_policy_text` as a string.
pub fn s3_website_policy_text_string(resource_name: &str) -> (r: String)
    ensures
        r@ == s3_website_policy_text(resource_name@),
{
    let mut out = to_string("\n    S3BucketWebsitePolicy");
    out.append(resource_name);
    out.append(":\n        Type: AWS::S3::BucketPolicy\n        Properties:\n            Bucket: !Ref S3Bucket");
    out.append(resource_name);
    out.append("\n            PolicyDocument:\n                Version: '2012-10-17'\n                Statement:\n                  - Action: 's3:GetObject'\n                    Effect: Allow\n                    Principal: '*'\n                    Resource: !Sub 'arn:aws:s3:::${S3Bucket");
    out.append(resource_name);
    out.append("}/*'\n");
    out
}

/// The role, function and custom resource that empty a bucket before it is deleted.
pub open spec fn s3_cleanup_text(resource_name: Seq<char>) -> Seq<char> {
    "\n    S3DeleteLambdaRole"@ + resource_name + ":\n        Type: AWS::IAM::Role\n        Properties:\n            AssumeRolePolicyDocument:\n                Version: '2012-10-17'\n                Statement:\n                  - Effect: Allow\n                    Principal:\n                        Service: lambda.amazonaws.com\n                    Action:\n                        - sts:AssumeRole\n            ManagedPolicyArns:\n            - 'arn:aws:iam::aws:policy/service-role/AWSLambdaBasicExecutionRole'\n            Policies:\n            - PolicyName: lambda_generated_policy\n              PolicyDocument:\n                  Version: '2012-10-17'\n                  Statement:\n                    - Effect: Allow\n                      Action:\n                        - s3:DeleteObject\n                        - s3:ListBucket\n                      Resource:\n                        - !Sub 'arn:aws:s3:::${S3Bucket"@ + resource_name + "}/*'\n                        - !Sub 'arn:aws:s3:::${S3Bucket"@ + resource_name + "}'\n    S3DeleteLambda"@ + resource_name + ":\n        Type: AWS::Lambda::Function\n        Properties:\n            Runtime: nodejs12.x\n            Role: !GetAtt S3DeleteLambdaRole"@ + resource_name + ".Arn\n            Handler: index.handler\n            Code:\n                ZipFile: |\n                    var AWS = require('aws-sdk')\n                    var response = require('cfn-response')\n                    const s3 = new AWS.S3({});\n                    async function listObjects(bucketName) {\n                        const data = await s3.listObjects({ Bucket: bucketName }).promise();\n                        const objects = data.Contents;\n                        for (let obj of objects) {\n                            console.log(obj.Key);\n                            await s3.deleteObject({ Bucket: bucketName, Key: obj.Key }).promise();\n                        }\n                        console.log(`Successfully deleted ${objects.length} objects from S3 bucket`);\n                    }\n                    exports.handler = async function(event, context) {\n                        console.log('REQUEST RECEIVED:' + JSON.stringify(event))\n                        let responseType = response.SUCCESS\n                        if (event.RequestType == 'Delete') {\n                            try {\n                                await listObjects(event.ResourceProperties.BucketName);\n                            } catch (err) {\n                                console.log(`Error deleting objects from S3 bucket: ${err}`);\n                                responseType = response.FAILED\n                            }\n                        }\n                        await response.send(event, context, responseType)\n                    }\n    S3CleanupResource:\n        Type: Custom::cleanupbucket"@ + resource_name + "\n        Properties:\n            ServiceToken: !GetAtt S3DeleteLambda"@ + resource_name + ".Arn\n            BucketName: !Ref S3Bucket"@ + resource_name + "\n"@
}

/// The text of `s3_cleanup_text` as a string.
pub fn s3_cleanup_text_string(resource_name: &str) -> (r: String)
    ensures
        r@ == s3_cleanup_text(resource_name@),
{
    let mut out = to_string("\n    S3DeleteLambdaRole");
    out.append(resource_name);
    out.append(":\n        Type: AWS::IAM::Role\n        Properties:\n            AssumeRolePolicyDocument:\n                Version: '2012-10-17'\n                Statement:\n                  - Effect: Allow\n                    Principal:\n                        Service: lambda.amazonaws.com\n                    Action:\n                        - sts:AssumeRole\n            ManagedPolicyArns:\n            - 'arn:aws:iam::aws:policy/service-role/AWSLambdaBasicExecutionRole'\n            Policies:\n            - PolicyName: lambda_generated_policy\n              PolicyDocument:\n                  Version: '2012-10-17'\n                  Statement:\n                    - Effect: Allow\n                      Action:\n                        - s3:DeleteObject\n                        - s3:ListBucket\n                      Resource:\n                        - !Sub 'arn:aws:s3:::${S3Bucket");
    out.append(resource_name);
    out.append("}/*'\n                        - !Sub 'arn:aws:s3:::${S3Bucket");
    out.append(resource_name);
    out.append("}'\n    S3DeleteLambda");
    out.append(resource_name);
    out.append(":\n        Type: AWS::Lambda::Function\n        Properties:\n            Runtime: nodejs12.x\n            Role: !GetAtt S3DeleteLambdaRole");
    out.append(resource_name);
    out.append(".Arn\n            Handler: index.handler\n            Code:\n                ZipFile: |\n                    var AWS = require('aws-sdk')\n                    var response = require('cfn-response')\n                    const s3 = new AWS.S3({});\n                    async function listObjects(bucketName) {\n                        const data = await s3.listObjects({ Bucket: bucketName }).promise();\n                        const objects = data.Contents;\n                        for (let obj of objects) {\n                            console.log(obj.Key);\n                            await s3.deleteObject({ Bucket: bucketName, Key: obj.Key }).promise();\n                        }\n                        console.log(`Successfully deleted ${objects.length} objects from S3 bucket`);\n                    }\n                    exports.handler = async function(event, context) {\n                        console.log('REQUEST RECEIVED:' + JSON.stringify(event))\n                        let responseType = response.SUCCESS\n                        if (event.RequestType == 'Delete') {\n                            try {\n                                await listObjects(event.ResourceProperties.BucketName);\n                            } catch (err) {\n                                console.log(`Error deleting objects from S3 bucket: ${err}`);\n                                responseType = response.FAILED\n                            }\n                        }\n                        await response.send(event, context, responseType)\n                    }\n    S3CleanupResource:\n        Type: Custom::cleanupbucket");
    out.append(resource_name);
    out.append("\n        Properties:\n            ServiceToken: !GetAtt S3DeleteLambda");
    out.append(resource_name);
    out.append(".Arn\n            BucketName: !Ref S3Bucket");
    out.append(resource_name);
    out.append("\n");
    out
}

/// The head of a distribution resource.
pub open spec fn cdn_head_text(resource_name: Seq<char>) -> Seq<char> {
    "\n    CDN"@ + resource_name + ":\n        Type: AWS::CloudFront::Distribution\n        Properties:\n            DistributionConfig:\n                Enabled: 'true'\n"@
}

/// The text of `cdn_head_text` as a string.
pub fn cdn_head_text_string(resource_name: &str) -> (r: String)
    ensures
        r@ == cdn_head_text(resource_name@),
{
    let mut out = to_string("\n    CDN");
    out.append(resource_name);
    out.append(":\n        Type: AWS::CloudFront::Distribution\n        Properties:\n            DistributionConfig:\n                Enabled: 'true'\n");
    out
}

/// The comment line of a distribution.
pub open spec fn cdn_comment_text(description: Seq<char>) -> Seq<char> {
    "                Comment: "@ + description + "\n"@
}

/// The text of `cdn_comment_text` as a string.
pub fn cdn_comment_text_string(description: &str) -> (r: String)
    ensures
        r@ == cdn_comment_text(description@),
{
    let mut out = to_string("                Comment: ");
    out.append(description);
    out.append("\n");
    out
}

/// The viewer certificate settings of a distribution.
pub open spec fn cdn_certificate_text(cert_arn: Seq<char>) -> Seq<char> {
    "\n                ViewerCertificate:\n                    AcmCertificateArn: "@ + cert_arn + "\n                    MinimumProtocolVersion: TLSv1.2_2021\n                    SslSupportMethod: sni-only\n"@
}

/// The text of `cdn_certificate_text` as a string.
pub fn cdn_certificate_text_string(cert_arn: &str) -> (r: String)
    ensures
        r@ == cdn_certificate_text(cert_arn@),
{
    let mut out = to_string("\n                ViewerCertificate:\n                    AcmCertificateArn: ");
    out.append(cert_arn);
    out.append("\n                    MinimumProtocolVersion: TLSv1.2_2021\n                    SslSupportMethod: sni-only\n");
    out
}

/// One alias line of a distribution.
pub open spec fn cdn_alias_text(alias: Seq<char>) -> Seq<char> {
    "                - "@ + alias + "\n"@
}

/// The text of `cdn_alias_text` as a string.
pub fn cdn_alias_text_string(alias: &str) -> (r: String)
    ensures
        r@ == cdn_alias_text(alias@),
{
    let mut out = to_string("                - ");
    out.append(alias);
    out.append("\n");
    out
}

/// The default cache behavior of a distribution.
pub open spec fn cdn_default_behavior_text(id: Seq<char>) -> Seq<char> {
    "                DefaultCacheBehavior:\n                    TargetOriginId: "@ + id + "\n                    ViewerProtocolPolicy: redirect-to-https\n                    CachePolicyId: 658327ea-f89d-4fab-a63d-7e88639e58f6\n"@
}

/// The text of `cdn_default_behavior_text` as a string.
pub fn cdn_default_behavior_text_string(id: &str) -> (r: String)
    ensures
        r@ == cdn_default_behavior_text(id@),
{
    let mut out = to_string("                DefaultCacheBehavior:\n                    TargetOriginId: ");
    out.append(id);
    out.append("\n                    ViewerProtocolPolicy: redirect-to-https\n                    CachePolicyId: 658327ea-f89d-4fab-a63d-7e88639e58f6\n");
    out
}

/// One origin of a distribution.
pub open spec fn cdn_origin_text(http_port: Seq<char>, https_port: Seq<char>, origin_protocol_policy: Seq<char>, domain_name: Seq<char>, id: Seq<char>) -> Seq<char> {
    "                - CustomOriginConfig:\n                      HTTPPort: "@ + http_port + "\n                      HTTPSPort: "@ + https_port + "\n                      OriginProtocolPolicy: "@ + origin_protocol_policy + "\n                  DomainName: "@ + domain_name + "\n                  Id: "@ + id + "\n"@
}

/// The text of `cdn_origin_text` as a string.
pub fn cdn_origin_text_string(http_port: &str, https_port: &str, origin_protocol_policy: &str, domain_name: &str, id: &str) -> (r: String)
    ensures
        r@ == cdn_origin_text(http_port@, https_port@, origin_protocol_policy@, domain_name@, id@),
{
    let mut out = to_string("                - CustomOriginConfig:\n                      HTTPPort: ");
    out.append(http_port);
    out.append("\n                      HTTPSPort: ");
    out.append(https_port);
    out.append("\n                      OriginProtocolPolicy: ");
    out.append(origin_protocol_policy);
    out.append("\n                  DomainName: ");
    out.append(domain_name);
    out.append("\n                  Id: ");
    out.append(id);
    out.append("\n");
    out
}

/// A DNS record resource.
pub open spec fn route53_text(resource_name: Seq<char>, alias_target_dns_name: Seq<char>, alias_target_hosted_zone_id: Seq<char>, hosted_zone_name: Seq<char>, name: Seq<char>, record_type: Seq<char>) -> Seq<char> {
    "\n    Route53Record"@ + resource_name + ":\n        Type: AWS::Route53::RecordSet\n        Properties:\n            AliasTarget:\n                DNSName: "@ + alias_target_dns_name + "\n                HostedZoneId: "@ + alias_target_hosted_zone_id + "\n            HostedZoneName: "@ + hosted_zone_name + "\n            Comment: "@ + name + "\n            Name: "@ + name + "\n            Type: "@ + record_type + "\n"@
}

/// The text of `route53_text` as a string.
pub fn route53_text_string(resource_name: &str, alias_target_dns_name: &str, alias_target_hosted_zone_id: &str, hosted_zone_name: &str, name: &str, record_type: &str) -> (r: String)
    ensures
        r@ == route53_text(resource_name@, alias_target_dns_name@, alias_target_hosted_zone_id@, hosted_zone_name@, name@, record_type@),
{
    let mut out = to_string("\n    Route53Record");
    out.append(resource_name);
    out.append(":\n        Type: AWS::Route53::RecordSet\n        Properties:\n            AliasTarget:\n                DNSName: ");
    out.append(alias_target_dns_name);
    out.append("\n                HostedZoneId: ");
    out.append(alias_target_hosted_zone_id);
    out.append("\n            HostedZoneName: ");
    out.append(hosted_zone_name);
    out.append("\n            Comment: ");
    out.append(name);
    out.append("\n            Name: ");
    out.append(name);
    out.append("\n            Type: ");
    out.append(record_type);
    out.append("\n");
    out
}

/// One environment variable line.
pub open spec fn lambda_env_var_text(key: Seq<char>, val: Seq<char>) -> Seq<char> {
    "                    "@ + key + ": "@ + val + "\n"@
}

/// The text of `lambda_env_var_text` as a string.
pub fn lambda_env_var_text_string(key: &str, val: &str) -> (r: String)
    ensures
        r@ == lambda_env_var_text(key@, val@),
{
    let mut out = to_string("                    ");
    out.append(key);
    out.append(": ");
    out.append(val);
    out.append("\n");
    out
}

/// One tag entry.
pub open spec fn lambda_tag_text(key: Seq<char>, val: Seq<char>) -> Seq<char> {
    "            - Key: "@ + key + "\n              Value: "@ + val + "\n"@
}

/// The text of `lambda_tag_text` as a string.
pub fn lambda_tag_text_string(key: &str, val: &str) -> (r: String)
    ensures
        r@ == lambda_tag_text(key@, val@),
{
    let mut out = to_string("            - Key: ");
    out.append(key);
    out.append("\n              Value: ");
    out.append(val);
    out.append("\n");
    out
}

/// The effect line of a policy statement.
pub open spec fn lambda_effect_text(effect: Seq<char>) -> Seq<char> {
    "                    - Effect: "@ + effect + "\n"@
}

/// The text of `lambda_effect_text` as a string.
pub fn lambda_effect_text_string(effect: &str) -> (r: String)
    ensures
        r@ == lambda_effect_text(effect@),
{
    let mut out = to_string("                    - Effect: ");
    out.append(effect);
    out.append("\n");
    out
}

/// The action line of a policy statement.
pub open spec fn lambda_action_text(action: Seq<char>) -> Seq<char> {
    "                      Action: '"@ + action + "'\n"@
}

/// The text of `lambda_action_text` as a string.
pub fn lambda_action_text_string(action: &str) -> (r: String)
    ensures
        r@ == lambda_action_text(action@),
{
    let mut out = to_string("                      Action: '");
    out.append(action);
    out.append("'\n");
    out
}

/// The resource line of a policy statement.
pub open spec fn lambda_policy_resource_text(resource: Seq<char>) -> Seq<char> {
    "                      Resource: '"@ + resource + "'\n"@
}

/// The text of `lambda_policy_resource_text` as a string.
pub fn lambda_policy_resource_text_string(resource: &str) -> (r: String)
    ensures
        r@ == lambda_policy_resource_text(resource@),
{
    let mut out = to_string("                      Resource: '");
    out.append(resource);
    out.append("'\n");
    out
}

/// The name line of a function URL trigger.
pub open spec fn lambda_trigger_head_text(func_name_resource: Seq<char>, i: Seq<char>) -> Seq<char> {
    "    LambdaTrigger"@ + func_name_resource + i + ":\n"@
}

/// The text of `lambda_trigger_head_text` as a string.
pub fn lambda_trigger_head_text_string(func_name_resource: &str, i: &str) -> (r: String)
    ensures
        r@ == lambda_trigger_head_text(func_name_resource@, i@),
{
    let mut out = to_string("    LambdaTrigger");
    out.append(func_name_resource);
    out.append(i);
    out.append(":\n");
    out
}

/// The type and dependency lines of a function URL trigger.
pub open spec fn lambda_trigger_type_text(func_name_resource: Seq<char>) -> Seq<char> {
    "        Type: 'AWS::Lambda::Url'\n        DependsOn: [\"Lambda"@ + func_name_resource + "\"]\n        Properties:\n"@
}

/// The text of `lambda_trigger_type_text` as a string.
pub fn lambda_trigger_type_text_string(func_name_resource: &str) -> (r: String)
    ensures
        r@ == lambda_trigger_type_text(func_name_resource@),
{
    let mut out = to_string("        Type: 'AWS::Lambda::Url'\n        DependsOn: [\"Lambda");
    out.append(func_name_resource);
    out.append("\"]\n        Properties:\n");
    out
}

/// The auth type line of a function URL trigger.
pub open spec fn lambda_auth_text(auth_type: Seq<char>) -> Seq<char> {
    "            AuthType: "@ + auth_type + "\n"@
}

/// The text of `lambda_auth_text` as a string.
pub fn lambda_auth_text_string(auth_type: &str) -> (r: String)
    ensures
        r@ == lambda_auth_text(auth_type@),
{
    let mut out = to_string("            AuthType: ");
    out.append(auth_type);
    out.append("\n");
    out
}

/// The target line of a function URL trigger.
pub open spec fn lambda_target_text(func_name_resource: Seq<char>) -> Seq<char> {
    "            TargetFunctionArn: !GetAtt Lambda"@ + func_name_resource + ".Arn\n"@
}

/// The text of `lambda_target_text` as a string.
pub fn lambda_target_text_string(func_name_resource: &str) -> (r: String)
    ensures
        r@ == lambda_target_text(func_name_resource@),
{
    let mut out = to_string("            TargetFunctionArn: !GetAtt Lambda");
    out.append(func_name_resource);
    out.append(".Arn\n");
    out
}

/// The CORS credentials line.
pub open spec fn lambda_credentials_text(creds: Seq<char>) -> Seq<char> {
    "                AllowCredentials: "@ + creds + "\n"@
}

/// The text of `lambda_credentials_text` as a string.
pub fn lambda_credentials_text_string(creds: &str) -> (r: String)
    ensures
        r@ == lambda_credentials_text(creds@),
{
    let mut out = to_string("                AllowCredentials: ");
    out.append(creds);
    out.append("\n");
    out
}

/// The CORS max age line.
pub open spec fn lambda_max_age_text(age: Seq<char>) -> Seq<char> {
    "                MaxAge: "@ + age + "\n"@
}

/// The text of `lambda_max_age_text` as a string.
pub fn lambda_max_age_text_string(age: &str) -> (r: String)
    ensures
        r@ == lambda_max_age_text(age@),
{
    let mut out = to_string("                MaxAge: ");
    out.append(age);
    out.append("\n");
    out
}

/// The CORS allowed headers line.
pub open spec fn lambda_allow_headers_text(list: Seq<char>) -> Seq<char> {
    "                AllowHeaders: "@ + list + "\n"@
}

/// The text of `lambda_allow_headers_text` as a string.
pub fn lambda_allow_headers_text_string(list: &str) -> (r: String)
    ensures
        r@ == lambda_allow_headers_text(list@),
{
    let mut out = to_string("                AllowHeaders: ");
    out.append(list);
    out.append("\n");
    out
}

/// The CORS allowed methods line.
pub open spec fn lambda_allow_methods_text(list: Seq<char>) -> Seq<char> {
    "                AllowMethods: "@ + list + "\n"@
}

/// The text of `lambda_allow_methods_text` as a string.
pub fn lambda_allow_methods_text_string(list: &str) -> (r: String)
    ensures
        r@ == lambda_allow_methods_text(list@),
{
    let mut out = to_string("                AllowMethods: ");
    out.append(list);
    out.append("\n");
    out
}

/// The CORS allowed origins line.
pub open spec fn lambda_allow_origins_text(list: Seq<char>) -> Seq<char> {
    "                AllowOrigins: "@ + list + "\n"@
}

/// The text of `lambda_allow_origins_text` as a string.
pub fn lambda_allow_origins_text_string(list: &str) -> (r: String)
    ensures
        r@ == lambda_allow_origins_text(list@),
{
    let mut out = to_string("                AllowOrigins: ");
    out.append(list);
    out.append("\n");
    out
}

/// The CORS exposed headers line.
pub open spec fn lambda_expose_headers_text(list: Seq<char>) -> Seq<char> {
    "                ExposeHeaders: "@ + list + "\n"@
}

/// The text of `lambda_expose_headers_text` as a string.
pub fn lambda_expose_headers_text_string(list: &str) -> (r: String)
    ensures
        r@ == lambda_expose_headers_text(list@),
{
    let mut out = to_string("                ExposeHeaders: ");
    out.append(list);
    out.append("\n");
    out
}

/// The permission that lets anyone invoke the function URL.
pub open spec fn lambda_permission_text(func_name_resource: Seq<char>, i: Seq<char>) -> Seq<char> {
    "    LambdaPermission"@ + func_name_resource + i + ":\n        Type: AWS::Lambda::Permission\n        Properties:\n            Action: 'lambda:InvokeFunctionUrl'\n            FunctionName: !GetAtt Lambda"@ + func_name_resource + ".Arn\n            FunctionUrlAuthType: NONE\n            Principal: '*'\n"@
}

/// The text of `lambda_permission_text` as a string.
pub fn lambda_permission_text_string(func_name_resource: &str, i: &str) -> (r: String)
    ensures
        r@ == lambda_permission_text(func_name_resource@, i@),
{
    let mut out = to_string("    LambdaPermission");
    out.append(func_name_resource);
    out.append(i);
    out.append(":\n        Type: AWS::Lambda::Permission\n        Properties:\n            Action: 'lambda:InvokeFunctionUrl'\n            FunctionName: !GetAtt Lambda");
    out.append(func_name_resource);
    out.append(".Arn\n            FunctionUrlAuthType: NONE\n            Principal: '*'\n");
    out
}

/// The function resource and its execution role.
pub open spec fn lambda_function_text(func_name_resource: Seq<char>, func_name: Seq<char>, bucket_name: Seq<char>, tags: Seq<char>, memory: Seq<char>, timeout: Seq<char>, environment_variables: Seq<char>, policy_str: Seq<char>, trigger_section: Seq<char>) -> Seq<char> {
    "\n    Lambda"@ + func_name_resource + ":\n        Type: 'AWS::Lambda::Function'\n        Properties:\n            FunctionName: "@ + func_name + "\n            Runtime: provided.al2\n            Code:\n                S3Bucket: "@ + bucket_name + "\n                S3Key: "@ + func_name + ".zip\n            Handler: index.handler\n"@ + tags + "\n            MemorySize: "@ + memory + "\n            Timeout: "@ + timeout + "\n"@ + environment_variables + "\n            Architectures:\n            - arm64\n            Role: !GetAtt LambdaExecutionRole"@ + func_name_resource + ".Arn\n    LambdaExecutionRole"@ + func_name_resource + ":\n        Type: AWS::IAM::Role\n        Properties:\n            AssumeRolePolicyDocument:\n                Version: '2012-10-17'\n                Statement:\n                    - Effect: Allow\n                      Principal:\n                          Service: lambda.amazonaws.com\n                      Action:\n                          - sts:AssumeRole\n            ManagedPolicyArns:\n            - 'arn:aws:iam::aws:policy/service-role/AWSLambdaBasicExecutionRole'\n"@ + policy_str + "\n"@ + trigger_section + "\n"@
}

/// The text of `lambda_function_text` as a string.
pub fn lambda_function_text_string(func_name_resource: &str, func_name: &str, bucket_name: &str, tags: &str, memory: &str, timeout: &str, environment_variables: &str, policy_str: &str, trigger_section: &str) -> (r: String)
    ensures
        r@ == lambda_function_text(func_name_resource@, func_name@, bucket_name@, tags@, memory@, timeout@, environment_variables@, policy_str@, trigger_section@),
{
    let mut out = to_string("\n    Lambda");
    out.append(func_name_resource);
    out.append(":\n        Type: 'AWS::Lambda::Function'\n        Properties:\n            FunctionName: ");
    out.append(func_name);
    out.append("\n            Runtime: provided.al2\n            Code:\n                S3Bucket: ");
    out.append(bucket_name);
    out.append("\n                S3Key: ");
    out.append(func_name);
    out.append(".zip\n            Handler: index.handler\n");
    out.append(tags);
    out.append("\n            MemorySize: ");
    out.append(memory);
    out.append("\n            Timeout: ");
    out.append(timeout);
    out.append("\n");
    out.append(environment_variables);
    out.append("\n            Architectures:\n            - arm64\n            Role: !GetAtt LambdaExecutionRole");
    out.append(func_name_resource);
    out.append(".Arn\n    LambdaExecutionRole");
    out.append(func_name_resource);
    out.append(":\n        Type: AWS::IAM::Role\n        Properties:\n            AssumeRolePolicyDocument:\n                Version: '2012-10-17'\n                Statement:\n                    - Effect: Allow\n                      Principal:\n                          Service: lambda.amazonaws.com\n                      Action:\n                          - sts:AssumeRole\n            ManagedPolicyArns:\n            - 'arn:aws:iam::aws:policy/service-role/AWSLambdaBasicExecutionRole'\n");
    out.append(policy_str);
    out.append("\n");
    out.append(trigger_section);
    out.append("\n");
    out
}

/// A queue resource.
pub open spec fn sqs_queue_text(resource_name: Seq<char>, default_queue_delay_s: Seq<char>, max_message_size_bytes: Seq<char>, max_retention_period_s: Seq<char>, queue_name: Seq<char>, receive_message_wait_time_s: Seq<char>, managed_sse_enabled: Seq<char>, visibility_timeout_s: Seq<char>) -> Seq<char> {
    "    "@ + resource_name + ":\n        Type: AWS::SQS::Queue\n        Properties:\n            DelaySeconds: "@ + default_queue_delay_s + "\n            MaximumMessageSize: "@ + max_message_size_bytes + "\n            MessageRetentionPeriod: "@ + max_retention_period_s + "\n            "@ + queue_name + "\n            ReceiveMessageWaitTimeSeconds: "@ + receive_message_wait_time_s + "\n            SqsManagedSseEnabled: "@ + managed_sse_enabled + "\n            VisibilityTimeout: "@ + visibility_timeout_s + "\n"@
}

/// The text of `sqs_queue_text` as a string.
pub fn sqs_queue_text_string(resource_name: &str, default_queue_delay_s: &str, max_message_size_bytes: &str, max_retention_period_s: &str, queue_name: &str, receive_message_wait_time_s: &str, managed_sse_enabled: &str, visibility_timeout_s: &str) -> (r: String)
    ensures
        r@ == sqs_queue_text(resource_name@, default_queue_delay_s@, max_message_size_bytes@, max_retention_period_s@, queue_name@, receive_message_wait_time_s@, managed_sse_enabled@, visibility_timeout_s@),
{
    let mut out = to_string("    ");
    out.append(resource_name);
    out.append(":\n        Type: AWS::SQS::Queue\n        Properties:\n            DelaySeconds: ");
    out.append(default_queue_delay_s);
    out.append("\n            MaximumMessageSize: ");
    out.append(max_message_size_bytes);
    out.append("\n            MessageRetentionPeriod: ");
    out.append(max_retention_period_s);
    out.append("\n            ");
    out.append(queue_name);
    out.append("\n            ReceiveMessageWaitTimeSeconds: ");
    out.append(receive_message_wait_time_s);
    out.append("\n            SqsManagedSseEnabled: ");
    out.append(managed_sse_enabled);
    out.append("\n            VisibilityTimeout: ");
    out.append(visibility_timeout_s);
    out.append("\n");
    out
}

/// A function resource with its role.
pub open spec fn registry_lambda_text(resource_name: Seq<char>, func_name: Seq<char>, bucket_param: Seq<char>, key_param: Seq<char>, memory_size: Seq<char>, timeout: Seq<char>, role_resource_name: Seq<char>) -> Seq<char> {
    "    "@ + resource_name + ":\n        Type: 'AWS::Lambda::Function'\n        Properties:\n            "@ + func_name + "\n            Runtime: provided.al2\n            Handler: index.handler\n            Code:\n                S3Bucket: !Ref "@ + bucket_param + "\n                S3Key: !Ref "@ + key_param + "\n            MemorySize: "@ + memory_size + "\n            Timeout: "@ + timeout + "\n            Architectures:\n            - arm64\n            Role: !GetAtt "@ + role_resource_name + ".Arn\n    "@ + role_resource_name + ":\n        Type: 'AWS::IAM::Role'\n        Properties:\n            AssumeRolePolicyDocument:\n                Version: '2012-10-17'\n                Statement:\n                - Effect: Allow\n                  Principal:\n                      Service: lambda.amazonaws.com\n                  Action:\n                  - sts:AssumeRole\n            ManagedPolicyArns:\n            - 'arn:aws:iam::aws:policy/service-role/AWSLambdaBasicExecutionRole'\n"@
}

/// The text of `registry_lambda_text` as a string.
pub fn registry_lambda_text_string(resource_name: &str, func_name: &str, bucket_param: &str, key_param: &str, memory_size: &str, timeout: &str, role_resource_name: &str) -> (r: String)
    ensures
        r@ == registry_lambda_text(resource_name@, func_name@, bucket_param@, key_param@, memory_size@, timeout@, role_resource_name@),
{
    let mut out = to_string("    ");
    out.append(resource_name);
    out.append(":\n        Type: 'AWS::Lambda::Function'\n        Properties:\n            ");
    out.append(func_name);
    out.append("\n            Runtime: provided.al2\n            Handler: index.handler\n            Code:\n                S3Bucket: !Ref ");
    out.append(bucket_param);
    out.append("\n                S3Key: !Ref ");
    out.append(key_param);
    out.append("\n            MemorySize: ");
    out.append(memory_size);
    out.append("\n            Timeout: ");
    out.append(timeout);
    out.append("\n            Architectures:\n            - arm64\n            Role: !GetAtt ");
    out.append(role_resource_name);
    out.append(".Arn\n    ");
    out.append(role_resource_name);
    out.append(":\n        Type: 'AWS::IAM::Role'\n        Properties:\n            AssumeRolePolicyDocument:\n                Version: '2012-10-17'\n                Statement:\n                - Effect: Allow\n                  Principal:\n                      Service: lambda.amazonaws.com\n                  Action:\n                  - sts:AssumeRole\n            ManagedPolicyArns:\n            - 'arn:aws:iam::aws:policy/service-role/AWSLambdaBasicExecutionRole'\n");
    out
}

/// A bucket resource.
pub open spec fn registry_bucket_text(resource_name: Seq<char>, bucket_name: Seq<char>) -> Seq<char> {
    "    "@ + resource_name + ":\n        Type: 'AWS::S3::Bucket'\n        Properties:\n            "@ + bucket_name + "\n"@
}

/// The text of `registry_bucket_text` as a string.
pub fn registry_bucket_text_string(resource_name: &str, bucket_name: &str) -> (r: String)
    ensures
        r@ == registry_bucket_text(resource_name@, bucket_name@),
{
    let mut out = to_string("    ");
    out.append(resource_name);
    out.append(":\n        Type: 'AWS::S3::Bucket'\n        Properties:\n            ");
    out.append(bucket_name);
    out.append("\n");
    out
}

/// One cache behavior of a distribution.
pub open spec fn cache_behavior_text(key_name: Seq<char>, origin_id: Seq<char>, path_pattern: Seq<char>, viewer_protocol_policy: Seq<char>, allowed_methods: Seq<char>, cache_policy_id: Seq<char>, compress: Seq<char>) -> Seq<char> {
    key_name + ":\n                    TargetOriginId: "@ + origin_id + "\n                    "@ + path_pattern + "\n                    ViewerProtocolPolicy: "@ + viewer_protocol_policy + "\n                    AllowedMethods: "@ + allowed_methods + "\n                    CachePolicyId: "@ + cache_policy_id + "\n                    Compress: "@ + compress + "\n"@
}

/// The text of `cache_behavior_text` as a string.
pub fn cache_behavior_text_string(key_name: &str, origin_id: &str, path_pattern: &str, viewer_protocol_policy: &str, allowed_methods: &str, cache_policy_id: &str, compress: &str) -> (r: String)
    ensures
        r@ == cache_behavior_text(key_name@, origin_id@, path_pattern@, viewer_protocol_policy@, allowed_methods@, cache_policy_id@, compress@),
{
    let mut out = to_string(key_name);
    out.append(":\n                    TargetOriginId: ");
    out.append(origin_id);
    out.append("\n                    ");
    out.append(path_pattern);
    out.append("\n                    ViewerProtocolPolicy: ");
    out.append(viewer_protocol_policy);
    out.append("\n                    AllowedMethods: ");
    out.append(allowed_methods);
    out.append("\n                    CachePolicyId: ");
    out.append(cache_policy_id);
    out.append("\n                    Compress: ");
    out.append(compress);
    out.append("\n");
    out
}

/// One origin of a distribution.
pub open spec fn origin_text(origin_id: Seq<char>, origin_domain_name: Seq<char>, origin_path: Seq<char>, origin_protocol_policy: Seq<char>) -> Seq<char> {
    "                - Id: "@ + origin_id + "\n                  DomainName: "@ + origin_domain_name + "\n                  "@ + origin_path + "\n                  CustomOriginConfig:\n                      OriginProtocolPolicy: "@ + origin_protocol_policy
}

/// The text of `origin_text` as a string.
pub fn origin_text_string(origin_id: &str, origin_domain_name: &str, origin_path: &str, origin_protocol_policy: &str) -> (r: String)
    ensures
        r@ == origin_text(origin_id@, origin_domain_name@, origin_path@, origin_protocol_policy@),
{
    let mut out = to_string("                - Id: ");
    out.append(origin_id);
    out.append("\n                  DomainName: ");
    out.append(origin_domain_name);
    out.append("\n                  ");
    out.append(origin_path);
    out.append("\n                  CustomOriginConfig:\n                      OriginProtocolPolicy: ");
    out.append(origin_protocol_policy);
    out
}

/// A distribution resource.
pub open spec fn distribution_text(resource_name: Seq<char>, cert_arn: Seq<char>, host: Seq<char>, default_cache_behavior: Seq<char>, origins: Seq<char>, cache_behaviors: Seq<char>) -> Seq<char> {
    "    "@ + resource_name + ":\n        Type: 'AWS::CloudFront::Distribution'\n        Properties:\n            DistributionConfig:\n                Enabled: true\n                ViewerCertificate:\n                    AcmCertificateArn: "@ + cert_arn + "\n                    MinimumProtocolVersion: TLSv1.2_2021\n                    SslSupportMethod: sni-only\n                Aliases:\n                - "@ + host + "\n                "@ + default_cache_behavior + "\n                "@ + origins + "\n                "@ + cache_behaviors
}

/// The text of `distribution_text` as a string.
pub fn distribution_text_string(resource_name: &str, cert_arn: &str, host: &str, default_cache_behavior: &str, origins: &str, cache_behaviors: &str) -> (r: String)
    ensures
        r@ == distribution_text(resource_name@, cert_arn@, host@, default_cache_behavior@, origins@, cache_behaviors@),
{
    let mut out = to_string("    ");
    out.append(resource_name);
    out.append(":\n        Type: 'AWS::CloudFront::Distribution'\n        Properties:\n            DistributionConfig:\n                Enabled: true\n                ViewerCertificate:\n                    AcmCertificateArn: ");
    out.append(cert_arn);
    out.append("\n                    MinimumProtocolVersion: TLSv1.2_2021\n                    SslSupportMethod: sni-only\n                Aliases:\n                - ");
    out.append(host);
    out.append("\n                ");
    out.append(default_cache_behavior);
    out.append("\n                ");
    out.append(origins);
    out.append("\n                ");
    out.append(cache_behaviors);
    out
}

} // verus!
