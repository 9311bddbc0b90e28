use vstd::prelude::*;

use crate::level0::L0Core;
use crate::level2::aws_cloudfront_distribution::{
    clone_settings, domain_view, opt_settings_view, select_s3website_url, CustomDomainSettings,
    DomainV, OriginProtocolPolicy,
};

verus! {

/// The settings of a distribution in front of a bucket that is set up as a website.
pub struct Input {
    /// the logical id of the bucket; the origin is the host part of its website URL
    pub logical_bucket_website_url: String,
    pub custom_domain_settings: Option<CustomDomainSettings>,
}

impl Default for Input {
    fn default() -> (r: Input)
        ensures
            r.logical_bucket_website_url@.len() == 0,
            r.custom_domain_settings is None,
    {
        Input { logical_bucket_website_url: String::new(), custom_domain_settings: None }
    }
}

/// Points the distribution at the bucket's website, reached over HTTP (a bucket website
/// serves no HTTPS), with the custom domain settings given.
pub fn config(
    inp: &mut Input,
    distrinput: &mut crate::level2::aws_cloudfront_distribution::Input,
    _l0core: &mut L0Core,
)
    ensures
        *final(inp) == *old(inp),
        *final(_l0core) == *old(_l0core),
        domain_view(final(distrinput).default_origin_domain_name) == DomainV::S3WebsiteUrlOf(
            old(inp).logical_bucket_website_url@,
        ),
        final(distrinput).default_origin_protocol_policy == OriginProtocolPolicy::HttpOnly,
        opt_settings_view(final(distrinput).custom_domain_settings) == opt_settings_view(
            old(inp).custom_domain_settings,
        ),
        final(distrinput).disabled == old(distrinput).disabled,
        final(distrinput).viewer_protocol_policy == old(distrinput).viewer_protocol_policy,
        final(distrinput).extra_origins@ == old(distrinput).extra_origins@,
{
    distrinput.default_origin_domain_name = select_s3website_url(
        inp.logical_bucket_website_url.as_str(),
    );
    distrinput.default_origin_protocol_policy = OriginProtocolPolicy::HttpOnly;
    distrinput.custom_domain_settings = clone_settings(&inp.custom_domain_settings);
}

} // verus!
