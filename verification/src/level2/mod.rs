pub mod aws_cfn_stack;
pub mod aws_cloudfront_distribution;
pub mod aws_lambda;
pub mod lambda_url_distribution;
pub mod s3_website_distribution;
pub mod aws_s3;
pub mod aws_acm_cert;
pub mod dotenv_reader;
pub mod echo;
pub mod stack_deploy;
