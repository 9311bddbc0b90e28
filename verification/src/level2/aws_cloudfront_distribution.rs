use vstd::prelude::*;
use vstd::string::*;

use crate::level0::{nested_put, L0Core};
use crate::text::{concat3, ends_with, remove_char, seq_ends_with, str_eq, to_string, without_char};

verus! {

/// The domain name of an origin: given as is, or read from the URL of a function URL or of a
/// bucket website (the part after `https://` or `http://`).
pub enum DomainValue {
    Literal(String),
    FunctionUrlOf(String),
    S3WebsiteUrlOf(String),
}

pub enum DomainV {
    Literal(Seq<char>),
    FunctionUrlOf(Seq<char>),
    S3WebsiteUrlOf(Seq<char>),
}

pub open spec fn domain_view(d: DomainValue) -> DomainV {
    match d {
        DomainValue::Literal(s) => DomainV::Literal(s@),
        DomainValue::FunctionUrlOf(s) => DomainV::FunctionUrlOf(s@),
        DomainValue::S3WebsiteUrlOf(s) => DomainV::S3WebsiteUrlOf(s@),
    }
}

/// The domain name of the function URL with the given logical id.
pub fn select_function_url(logical_id: &str) -> (r: DomainValue)
    ensures
        domain_view(r) == DomainV::FunctionUrlOf(logical_id@),
{
    DomainValue::FunctionUrlOf(to_string(logical_id))
}

/// The domain name of the bucket website with the given logical id.
pub fn select_s3website_url(logical_id: &str) -> (r: DomainValue)
    ensures
        domain_view(r) == DomainV::S3WebsiteUrlOf(logical_id@),
{
    DomainValue::S3WebsiteUrlOf(to_string(logical_id))
}

/// How the distribution reaches an origin.
#[derive(PartialEq, Eq, Structural, Clone, Copy, Debug)]
pub enum OriginProtocolPolicy {
    HttpOnly,
    MatchViewer,
    HttpsOnly,
}

/// How viewers may reach the distribution.
#[derive(PartialEq, Eq, Structural, Clone, Copy, Debug)]
pub enum ViewerProtocolPolicy {
    AllowAll,
    HttpsOnly,
    RedirectToHttps,
}

/// How the certificate is served.
#[derive(PartialEq, Eq, Structural, Clone, Copy, Debug)]
pub enum SslSupportMethod {
    SniOnly,
    StaticIp,
    Vip,
}

/// The oldest protocol viewers may use.
#[derive(PartialEq, Eq, Structural, Clone, Copy, Debug)]
pub enum MinimumProtocolVersion {
    SslV3,
    TlsV1,
    TlsV1_2016,
    TlsV1_1_2016,
    TlsV1_2_2018,
    TlsV1_2_2019,
    TlsV1_2_2021,
}

/// A custom domain for a distribution, with its certificate.
pub struct CustomDomainSettings {
    /// required
    pub acm_arn: String,
    /// required; without a final `.`
    pub domain_name: String,
    /// a subdomain of `domain_name` to serve on instead
    pub subdomain: Option<String>,
    pub ssl_support_method: SslSupportMethod,
    pub minimum_protocol_version: MinimumProtocolVersion,
    /// whether a DNS record pointing at the distribution is made
    pub enable_route_53: bool,
}

pub struct SettingsV {
    pub acm_arn: Seq<char>,
    pub domain_name: Seq<char>,
    pub subdomain: Option<Seq<char>>,
    pub ssl_support_method: SslSupportMethod,
    pub minimum_protocol_version: MinimumProtocolVersion,
    pub enable_route_53: bool,
}

pub open spec fn opt_view(o: Option<String>) -> Option<Seq<char>> {
    match o {
        Some(s) => Some(s@),
        None => None,
    }
}

pub open spec fn settings_view(s: CustomDomainSettings) -> SettingsV {
    SettingsV {
        acm_arn: s.acm_arn@,
        domain_name: s.domain_name@,
        subdomain: opt_view(s.subdomain),
        ssl_support_method: s.ssl_support_method,
        minimum_protocol_version: s.minimum_protocol_version,
        enable_route_53: s.enable_route_53,
    }
}

pub open spec fn opt_settings_view(o: Option<CustomDomainSettings>) -> Option<SettingsV> {
    match o {
        Some(s) => Some(settings_view(s)),
        None => None,
    }
}

impl Default for CustomDomainSettings {
    /// No certificate or domain, served with SNI, TLS 1.2 (2021) at least, with a DNS record.
    fn default() -> (r: CustomDomainSettings)
        ensures
            r.acm_arn@.len() == 0,
            r.domain_name@.len() == 0,
            r.subdomain is None,
            r.ssl_support_method == SslSupportMethod::SniOnly,
            r.minimum_protocol_version == MinimumProtocolVersion::TlsV1_2_2021,
            r.enable_route_53,
    {
        CustomDomainSettings {
            acm_arn: String::new(),
            domain_name: String::new(),
            subdomain: None,
            ssl_support_method: SslSupportMethod::SniOnly,
            minimum_protocol_version: MinimumProtocolVersion::TlsV1_2_2021,
            enable_route_53: true,
        }
    }
}

/// A copy of the settings.
pub fn clone_settings(o: &Option<CustomDomainSettings>) -> (r: Option<CustomDomainSettings>)
    ensures
        opt_settings_view(r) == opt_settings_view(*o),
{
    match o {
        Some(s) => Some(
            CustomDomainSettings {
                acm_arn: s.acm_arn.clone(),
                domain_name: s.domain_name.clone(),
                subdomain: match &s.subdomain {
                    Some(a) => Some(a.clone()),
                    None => None,
                },
                ssl_support_method: s.ssl_support_method,
                minimum_protocol_version: s.minimum_protocol_version,
                enable_route_53: s.enable_route_53,
            },
        ),
        None => None,
    }
}

/// One more origin of a distribution with the behavior that routes a path pattern to it.
pub struct ExtraOrigin {
    pub id: String,
    pub domain: DomainValue,
    pub protocol: OriginProtocolPolicy,
    pub path_pattern: String,
    pub target_origin_id: String,
    pub cache_policy_id: String,
}

/// The settings of a distribution.
pub struct Input {
    /// the distribution is made disabled when set
    pub disabled: bool,
    pub viewer_protocol_policy: ViewerProtocolPolicy,
    pub custom_domain_settings: Option<CustomDomainSettings>,
    /// the domain of the default origin
    pub default_origin_domain_name: DomainValue,
    pub default_origin_protocol_policy: OriginProtocolPolicy,
    pub extra_origins: Vec<ExtraOrigin>,
}

impl Default for Input {
    /// Enabled, any viewer protocol, no custom domain, an empty default origin reached
    /// over HTTP, no more origins.
    fn default() -> (r: Input)
        ensures
            !r.disabled,
            r.viewer_protocol_policy == ViewerProtocolPolicy::AllowAll,
            r.custom_domain_settings is None,
            domain_view(r.default_origin_domain_name) == DomainV::Literal(Seq::empty()),
            r.default_origin_protocol_policy == OriginProtocolPolicy::HttpOnly,
            r.extra_origins@.len() == 0,
    {
        Input {
            disabled: false,
            viewer_protocol_policy: ViewerProtocolPolicy::AllowAll,
            custom_domain_settings: None,
            default_origin_domain_name: DomainValue::Literal(String::new()),
            default_origin_protocol_policy: OriginProtocolPolicy::HttpOnly,
            extra_origins: Vec::new(),
        }
    }
}

/// The DNS record that points the custom domain at the distribution.
pub struct RecordPlan {
    pub logical_name: String,
    /// the domain followed by `.`
    pub hosted_zone_name: String,
    pub comment: String,
    /// the served name
    pub name: String,
}

/// What the distribution resource is made of.
pub struct DistributionPlan {
    pub logical_name: String,
    pub enabled: bool,
    pub viewer_protocol_policy: ViewerProtocolPolicy,
    pub default_origin_domain: DomainValue,
    pub default_origin_protocol_policy: OriginProtocolPolicy,
    /// the served name, with a custom domain
    pub alias: Option<String>,
    /// (certificate, serving method, oldest protocol), with a custom domain
    pub certificate: Option<(String, SslSupportMethod, MinimumProtocolVersion)>,
    pub record: Option<RecordPlan>,
    pub extra_origins: Vec<ExtraOrigin>,
}

/// What a custom domain gives: the served name, or why the settings are refused.
pub open spec fn custom_domain_alias(s: SettingsV) -> Result<Seq<char>, Seq<char>> {
    if s.acm_arn.len() == 0 {
        Err("Provided custom_domain_settings, but acm_arn field is empty. This is required."@)
    } else if s.domain_name.len() == 0 {
        Err("Provided custom_domain_settings, but domain_name field is empty. This is required."@)
    } else {
        match s.subdomain {
            Some(a) => if seq_ends_with(a, "."@) {
                Err(
                    "Provided custom_domain_settings.subdomain '"@ + a
                        + "' ends with . This is invalid. must not end in a . as that is assumed"@,
                )
            } else {
                Ok(a + "."@ + s.domain_name)
            },
            None => Ok(s.domain_name),
        }
    }
}

/// The first extra origin whose id is `origin0` or the id of an earlier extra origin.
pub open spec fn first_repeated_id(ids: Seq<Seq<char>>) -> Option<int> {
    if exists|k: int|
        0 <= k < ids.len() && (ids[k] == "origin0"@ || exists|j: int| 0 <= j < k && ids[j] == ids[k])
    {
        Some(
            choose|k: int|
                0 <= k < ids.len() && (ids[k] == "origin0"@ || exists|j: int|
                    0 <= j < k && ids[j] == ids[k]) && forall|q: int|
                    0 <= q < k ==> !(ids[q] == "origin0"@ || exists|j: int|
                        0 <= j < q && ids[j] == ids[q]),
        )
    } else {
        None
    }
}

pub open spec fn origin_ids(v: Seq<ExtraOrigin>) -> Seq<Seq<char>> {
    Seq::new(v.len(), |i: int| v[i].id@)
}

pub open spec fn outcome_error(
    s: Option<SettingsV>,
    ids: Seq<Seq<char>>,
) -> Option<Seq<char>> {
    match s {
        Some(st) => match custom_domain_alias(st) {
            Err(m) => Some(m),
            Ok(_) => match first_repeated_id(ids) {
                Some(k) => Some(
                    "Origin ID '"@ + ids[k]
                        + "' already exists in this distribution. All origin IDs must be unique."@,
                ),
                None => None,
            },
        },
        None => match first_repeated_id(ids) {
            Some(k) => Some(
                "Origin ID '"@ + ids[k]
                    + "' already exists in this distribution. All origin IDs must be unique."@,
            ),
            None => None,
        },
    }
}

fn check_origin_ids(origins: &Vec<ExtraOrigin>) -> (r: Option<String>)
    ensures
        match first_repeated_id(origin_ids(origins@)) {
            Some(k) => r matches Some(m) && m@ == "Origin ID '"@ + origin_ids(origins@)[k]
                + "' already exists in this distribution. All origin IDs must be unique."@,
            None => r is None,
        },
{
    let ghost ids = origin_ids(origins@);
    let n = origins.len();
    let mut i: usize = 0;
    while i < n
        invariant
            n == origins@.len(),
            ids == origin_ids(origins@),
            i <= n,
            forall|q: int|
                0 <= q < i ==> !(ids[q] == "origin0"@ || exists|j: int|
                    0 <= j < q && ids[j] == ids[q]),
        decreases n - i,
    {
        let id = origins[i].id.as_str();
        let mut repeated = str_eq(id, "origin0");
        let mut j: usize = 0;
        while j < i && !repeated
            invariant
                n == origins@.len(),
                ids == origin_ids(origins@),
                j <= i < n,
                id@ == ids[i as int],
                repeated ==> (ids[i as int] == "origin0"@ || exists|q: int|
                    0 <= q < i && ids[q] == ids[i as int]),
                !repeated ==> ids[i as int] != "origin0"@ && forall|q: int|
                    0 <= q < j ==> ids[q] != ids[i as int],
            decreases i - j,
        {
            if str_eq(origins[j].id.as_str(), id) {
                assert(ids[j as int] == ids[i as int]);
                repeated = true;
            }
            j = j + 1;
        }
        if repeated {
            proof {
                let k = choose|k: int|
                    0 <= k < ids.len() && (ids[k] == "origin0"@ || exists|j: int|
                        0 <= j < k && ids[j] == ids[k]) && forall|q: int|
                        0 <= q < k ==> !(ids[q] == "origin0"@ || exists|j: int|
                            0 <= j < q && ids[j] == ids[q]);
                assert(k == i) by {
                    if k > i {
                    } else if k < i {
                    }
                }
            }
            let m = concat3(
                "Origin ID '",
                id,
                "' already exists in this distribution. All origin IDs must be unique.",
            );
            return Some(m);
        }
        i = i + 1;
    }
    None
}

/// Makes a distribution for the user's module: its logical name is `hiragendist` and the
/// module name without `_`. With a custom domain, the certificate and the served name are
/// set and, when asked, a DNS record named `hiragenr53recort` and the module name (without
/// `_`) points the domain at it. The extra origins keep their order; their ids must differ
/// from each other and from the default origin's `origin0`. Refused settings are reported as
/// the compiler error and give nothing; otherwise the `LOGICAL_DISTR_NAME` output is set.
pub fn config(myinput: &mut Input, l0core: &mut L0Core) -> (r: Option<DistributionPlan>)
    requires
        old(l0core).wf(),
    ensures
        final(l0core).wf(),
        final(myinput).extra_origins@.len() == 0,
        ({
            let m = old(l0core).lvl3_module_name@;
            let dn = without_char("hiragendist"@ + m, '_');
            match outcome_error(
                opt_settings_view(old(myinput).custom_domain_settings),
                origin_ids(old(myinput).extra_origins@),
            ) {
                Some(e) => r is None && final(l0core).compiler_error_message@ == (if old(
                    l0core,
                ).compiler_error_message@.len() == 0 {
                    e
                } else {
                    old(l0core).compiler_error_message@
                }),
                None => final(l0core).compiler_error_message@ == old(
                    l0core,
                ).compiler_error_message@ && final(l0core).outputs() == nested_put(
                    old(l0core).outputs(),
                    old(l0core).current_module_name@,
                    "LOGICAL_DISTR_NAME"@,
                    dn,
                ) && (r matches Some(p) && {
                    &&& p.logical_name@ == dn
                    &&& p.enabled == !old(myinput).disabled
                    &&& p.viewer_protocol_policy == old(myinput).viewer_protocol_policy
                    &&& domain_view(p.default_origin_domain) == domain_view(
                        old(myinput).default_origin_domain_name,
                    )
                    &&& p.default_origin_protocol_policy == old(
                        myinput,
                    ).default_origin_protocol_policy
                    &&& origin_ids(p.extra_origins@) == origin_ids(old(myinput).extra_origins@)
                    &&& match opt_settings_view(old(myinput).custom_domain_settings) {
                        None => p.alias is None && p.certificate is None && p.record is None,
                        Some(s) => {
                            let alias = custom_domain_alias(s)->Ok_0;
                            &&& p.alias matches Some(a) && a@ == alias
                            &&& p.certificate matches Some(c) && c.0@ == s.acm_arn && c.1
                                == s.ssl_support_method && c.2 == s.minimum_protocol_version
                            &&& if s.enable_route_53 {
                                p.record matches Some(rec) && rec.logical_name@ == without_char(
                                    "hiragenr53recort"@ + m,
                                    '_',
                                ) && rec.hosted_zone_name@ == s.domain_name + "."@
                                    && rec.comment@ == s.domain_name && rec.name@ == alias
                            } else {
                                p.record is None
                            }
                        },
                    }
                }),
            }
        }),
{
    let user_mod_name = l0core.users_module_name();
    let dist_name = concat3("hiragendist", user_mod_name.as_str(), "");
    let logical_distr_name = remove_char(dist_name.as_str(), '_');
    proof {
        reveal_strlit("");
        assert("hiragendist"@ + user_mod_name@ + ""@ =~= "hiragendist"@ + user_mod_name@);
        reveal_strlit(".");
    }
    let mut alias: Option<String> = None;
    let mut certificate: Option<(String, SslSupportMethod, MinimumProtocolVersion)> = None;
    let mut record: Option<RecordPlan> = None;
    let mut origins: Vec<ExtraOrigin> = Vec::new();
    std::mem::swap(&mut origins, &mut myinput.extra_origins);
    if let Some(settings) = &myinput.custom_domain_settings {
        if settings.acm_arn.as_str().unicode_len() == 0 {
            l0core.compiler_error(
                "Provided custom_domain_settings, but acm_arn field is empty. This is required.",
            );
            return None;
        }
        if settings.domain_name.as_str().unicode_len() == 0 {
            l0core.compiler_error(
                "Provided custom_domain_settings, but domain_name field is empty. This is required.",
            );
            return None;
        }
        let a = match &settings.subdomain {
            Some(a) => {
                if ends_with(a.as_str(), ".") {
                    let m = concat3(
                        "Provided custom_domain_settings.subdomain '",
                        a.as_str(),
                        "' ends with . This is invalid. must not end in a . as that is assumed",
                    );
                    l0core.compiler_error(m.as_str());
                    return None;
                }
                concat3(a.as_str(), ".", settings.domain_name.as_str())
            },
            None => settings.domain_name.clone(),
        };
        if settings.enable_route_53 {
            let rn = concat3("hiragenr53recort", user_mod_name.as_str(), "");
            assert("hiragenr53recort"@ + user_mod_name@ + ""@ =~= "hiragenr53recort"@
                + user_mod_name@);
            record = Some(
                RecordPlan {
                    logical_name: remove_char(rn.as_str(), '_'),
                    hosted_zone_name: concat3(settings.domain_name.as_str(), ".", ""),
                    comment: settings.domain_name.clone(),
                    name: a.clone(),
                },
            );
            assert(settings.domain_name@ + "."@ + ""@ =~= settings.domain_name@ + "."@);
        }
        certificate = Some(
            (settings.acm_arn.clone(), settings.ssl_support_method, settings.minimum_protocol_version),
        );
        alias = Some(a);
    }
    match check_origin_ids(&origins) {
        Some(m) => {
            l0core.compiler_error(m.as_str());
            return None;
        },
        None => {},
    }
    let default_origin_domain = match &myinput.default_origin_domain_name {
        DomainValue::Literal(s) => DomainValue::Literal(s.clone()),
        DomainValue::FunctionUrlOf(s) => DomainValue::FunctionUrlOf(s.clone()),
        DomainValue::S3WebsiteUrlOf(s) => DomainValue::S3WebsiteUrlOf(s.clone()),
    };
    l0core.set_output("LOGICAL_DISTR_NAME", logical_distr_name.as_str());
    Some(
        DistributionPlan {
            logical_name: logical_distr_name,
            enabled: !myinput.disabled,
            viewer_protocol_policy: myinput.viewer_protocol_policy,
            default_origin_domain,
            default_origin_protocol_policy: myinput.default_origin_protocol_policy,
            alias,
            certificate,
            record,
            extra_origins: origins,
        },
    )
}

} // verus!
