use vstd::prelude::*;

use crate::attributes::{
    attr_result_view, attr_view, parse_attr_stream, try_parse_attributes, AttrError, AttrV,
    ConstTable,
};
use crate::cfn_resources::{
    add_cloudfront_resource, add_route53_resource, cdn_resource_text, route53_resource_text,
};
use crate::resources::{
    distribution_from_attr, distribution_view, record_from_attr, record_view,
    CloudfrontDistribution, ResourceError, Route53RecordSet,
};
use crate::tokens::Tok;

verus! {

/// Why a resource macro refused its attribute.
#[derive(Debug)]
pub enum MacroError {
    /// The attribute tokens are not a value.
    Attribute(AttrError),
    /// The attribute value does not describe the resource.
    Resource(ResourceError),
    /// A distribution needs at least one origin.
    MissingOrigin,
    /// The first origin of a distribution needs a domain name.
    MissingOriginDomain,
    /// The item is not a module or function definition.
    Parse(crate::tokens::ParseError),
    /// The crate being compiled is no binary: there is no binary name.
    NotBinary,
    /// The parameters of a function could not be read.
    BadParams,
    /// A function for a lambda must take exactly one parameter (the number it takes).
    ParamCount(usize),
    /// A function for a lambda must be `async`.
    NotAsync,
    /// A function may not be both `const` and `async`.
    ConstAndAsync,
    /// No build bucket was set before a lambda was created.
    NoBuildBucket,
}

/// The distribution an attribute stream describes, when it has a first origin with a domain.
pub open spec fn distribution_of_stream(attr: Seq<Tok>, consts: Seq<(String, String)>) -> Option<
    crate::resources::DistributionV,
> {
    match parse_attr_stream(attr, consts) {
        Ok(a) => match distribution_from_attr(a) {
            Some(d) => if d.origins.len() > 0 && d.origins[0].domain_name.len() > 0 {
                Some(d)
            } else {
                None
            },
            None => None,
        },
        Err(_) => None,
    }
}

/// Reads a distribution from the attribute and gives back the item unchanged with the
/// template text of the distribution.
pub fn create_cloudfront_distribution(attr: Vec<Tok>, item: Vec<Tok>, consts: &ConstTable) -> (r:
    Result<(Vec<Tok>, String), MacroError>)
    ensures
        match distribution_of_stream(attr@, consts.entries@) {
            Some(d) => r matches Ok(p) && p.0@ == item@ && p.1@ == cdn_resource_text(d),
            None => r is Err,
        },
{
    let value = match try_parse_attributes(&attr, consts) {
        Ok(v) => v,
        Err(e) => {
            return Err(MacroError::Attribute(e));
        },
    };
    let conf = match CloudfrontDistribution::from_attribute(value) {
        Ok(c) => c,
        Err(e) => {
            return Err(MacroError::Resource(e));
        },
    };
    if conf.origins_and_behaviors.len() == 0 {
        return Err(MacroError::MissingOrigin);
    }
    if conf.origins_and_behaviors[0].domain_name.as_str().unicode_len() == 0 {
        return Err(MacroError::MissingOriginDomain);
    }
    let text = add_cloudfront_resource(&conf);
    Ok((item, text))
}

/// The record an attribute stream describes.
pub open spec fn record_of_stream(attr: Seq<Tok>, consts: Seq<(String, String)>) -> Option<
    crate::resources::RecordV,
> {
    match parse_attr_stream(attr, consts) {
        Ok(a) => record_from_attr(a),
        Err(_) => None,
    }
}

/// Reads a DNS record from the attribute and gives back the item unchanged with the
/// template text of the record.
pub fn create_route53_record(attr: Vec<Tok>, item: Vec<Tok>, consts: &ConstTable) -> (r: Result<
    (Vec<Tok>, String),
    MacroError,
>)
    ensures
        match record_of_stream(attr@, consts.entries@) {
            Some(x) => r matches Ok(p) && p.0@ == item@ && p.1@ == route53_resource_text(x),
            None => r is Err,
        },
{
    let value = match try_parse_attributes(&attr, consts) {
        Ok(v) => v,
        Err(e) => {
            return Err(MacroError::Attribute(e));
        },
    };
    let conf = match Route53RecordSet::from_attribute(value) {
        Ok(c) => c,
        Err(e) => {
            return Err(MacroError::Resource(e));
        },
    };
    let text = add_route53_resource(&conf);
    Ok((item, text))
}

} // verus!
