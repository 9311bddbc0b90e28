use vstd::prelude::*;
use vstd::string::*;

use crate::attributes::{
    assoc_get, attr_view, attrs_view, entries_view, AttrV, AttributeValue,
};
use crate::text::{str_eq, to_string};

verus! {

/// Why an attribute value does not describe a resource.
#[derive(Debug)]
pub enum ResourceError {
    /// The value (of the named setting) must be a map.
    ExpectedMap(String),
    /// The value of the named setting must be a string.
    ExpectedString(String),
    /// The value of the named setting must be a list.
    ExpectedList(String),
    /// A setting that the resource does not have.
    UnexpectedKey(String),
    /// The named setting holds a value it may not hold.
    InvalidValue(String),
    /// A setting that must be given and non-empty is missing.
    Missing(String),
}

pub open spec fn str_of(v: AttrV) -> Option<Seq<char>> {
    match v {
        AttrV::Str(s) => Some(s),
        _ => None,
    }
}

/// The string of a string value.
fn take_str(v: &AttributeValue, key: &str) -> (r: Result<String, ResourceError>)
    ensures
        match str_of(attr_view(*v)) {
            Some(s) => r matches Ok(o) && o@ == s,
            None => r is Err,
        },
{
    match v {
        AttributeValue::Str(s) => Ok(s.clone()),
        _ => Err(ResourceError::ExpectedString(to_string(key))),
    }
}

pub open spec fn strs_of(s: Seq<AttrV>) -> Option<Seq<Seq<char>>>
    decreases s.len(),
{
    if s.len() == 0 {
        Some(Seq::empty())
    } else {
        match (str_of(s.last()), strs_of(s.drop_last())) {
            (Some(x), Some(rest)) => Some(rest.push(x)),
            _ => None,
        }
    }
}

pub open spec fn strings_view(v: Seq<String>) -> Seq<Seq<char>> {
    Seq::new(v.len(), |i: int| v[i]@)
}

proof fn lemma_attrs_view_facts(s: Seq<AttributeValue>)
    ensures
        attrs_view(s).len() == s.len(),
        forall|i: int| 0 <= i < s.len() ==> #[trigger] attrs_view(s)[i] == attr_view(s[i]),
    decreases s.len(),
{
    if s.len() > 0 {
        let rest = s.subrange(1, s.len() as int);
        lemma_attrs_view_facts(rest);
        assert forall|i: int| 0 <= i < s.len() implies #[trigger] attrs_view(s)[i] == attr_view(
            s[i],
        ) by {
            if i > 0 {
                assert(rest[i - 1] == s[i]);
            }
        }
    }
}

proof fn lemma_entries_view_facts(s: Seq<(String, AttributeValue)>)
    ensures
        entries_view(s).len() == s.len(),
        forall|i: int|
            0 <= i < s.len() ==> #[trigger] entries_view(s)[i] == (s[i].0@, attr_view(s[i].1)),
    decreases s.len(),
{
    if s.len() > 0 {
        let rest = s.subrange(1, s.len() as int);
        lemma_entries_view_facts(rest);
        assert forall|i: int| 0 <= i < s.len() implies #[trigger] entries_view(s)[i] == (
            s[i].0@,
            attr_view(s[i].1),
        ) by {
            if i > 0 {
                assert(rest[i - 1] == s[i]);
            }
        }
    }
}

/// The strings of a list of string values.
fn take_strs(v: &Vec<AttributeValue>, key: &str) -> (r: Result<Vec<String>, ResourceError>)
    ensures
        match strs_of(attrs_view(v@)) {
            Some(s) => r matches Ok(o) && strings_view(o@) == s,
            None => r is Err,
        },
{
    proof {
        lemma_attrs_view_facts(v@);
    }
    let n = v.len();
    let mut out: Vec<String> = Vec::new();
    let mut i: usize = 0;
    while i < n
        invariant
            n == v@.len(),
            0 <= i <= n,
            attrs_view(v@).len() == n,
            forall|j: int| 0 <= j < n ==> #[trigger] attrs_view(v@)[j] == attr_view(v@[j]),
            strs_of(attrs_view(v@).subrange(0, i as int)) == Some(strings_view(out@)),
        decreases n - i,
    {
        let ghost pre = attrs_view(v@).subrange(0, i + 1);
        assert(pre.drop_last() =~= attrs_view(v@).subrange(0, i as int));
        assert(pre.last() == attr_view(v@[i as int]));
        let s = match take_str(&v[i], key) {
            Ok(s) => s,
            Err(e) => {
                proof {
                    lemma_strs_prefix_fail(attrs_view(v@), i as int + 1);
                }
                return Err(e);
            },
        };
        let ghost before = out@;
        out.push(s);
        assert(strings_view(out@) =~= strings_view(before).push(s@));
        i = i + 1;
    }
    assert(attrs_view(v@).subrange(0, n as int) =~= attrs_view(v@));
    Ok(out)
}

proof fn lemma_strs_prefix_fail(s: Seq<AttrV>, k: int)
    requires
        0 < k <= s.len(),
        strs_of(s.subrange(0, k)) is None,
    ensures
        strs_of(s) is None,
    decreases s.len() - k,
{
    if k < s.len() {
        assert(s.subrange(0, k + 1).drop_last() =~= s.subrange(0, k));
        lemma_strs_prefix_fail(s, k + 1);
    } else {
        assert(s.subrange(0, k) =~= s);
    }
}

// ---------------------------------------------------------------- S3 bucket

/// Website settings of a bucket.
#[derive(Debug)]
pub struct PublicWebsite {
    pub index_document: String,
    pub error_document: String,
}

/// A bucket as an attribute describes it.
#[derive(Debug)]
pub struct S3Bucket {
    pub name: String,
    pub public_website: Option<PublicWebsite>,
    pub no_custom_cleanup: bool,
    pub access_control: String,
}

pub struct S3BucketV {
    pub name: Seq<char>,
    pub public_website: Option<(Seq<char>, Seq<char>)>,
    pub no_custom_cleanup: bool,
    pub access_control: Seq<char>,
}

pub open spec fn s3_view(b: S3Bucket) -> S3BucketV {
    S3BucketV {
        name: b.name@,
        public_website: match b.public_website {
            Some(w) => Some((w.index_document@, w.error_document@)),
            None => None,
        },
        no_custom_cleanup: b.no_custom_cleanup,
        access_control: b.access_control@,
    }
}

/// Website settings read from the entries of a map from index `i` on.
pub open spec fn website_apply(
    m: Seq<(Seq<char>, AttrV)>,
    i: int,
    acc: (Seq<char>, Seq<char>),
) -> Option<(Seq<char>, Seq<char>)>
    decreases m.len() - i,
{
    if i < 0 || i >= m.len() {
        Some(acc)
    } else {
        let k = m[i].0;
        match str_of(m[i].1) {
            Some(s) => if k == "index_document"@ {
                website_apply(m, i + 1, (s, acc.1))
            } else if k == "error_document"@ {
                website_apply(m, i + 1, (acc.0, s))
            } else {
                None
            },
            None => None,
        }
    }
}

/// Bucket settings read from the entries of a map from index `i` on; later settings
/// override earlier ones (a website setting also sets the access control to `PublicRead`).
pub open spec fn s3_apply(m: Seq<(Seq<char>, AttrV)>, i: int, acc: S3BucketV) -> Option<S3BucketV>
    decreases m.len() - i,
{
    if i < 0 || i >= m.len() {
        Some(acc)
    } else {
        let k = m[i].0;
        let v = m[i].1;
        if k == "name"@ {
            match str_of(v) {
                Some(s) => s3_apply(m, i + 1, S3BucketV { name: s, ..acc }),
                None => None,
            }
        } else if k == "access_control"@ {
            match str_of(v) {
                Some(s) => s3_apply(m, i + 1, S3BucketV { access_control: s, ..acc }),
                None => None,
            }
        } else if k == "public_website"@ {
            match v {
                AttrV::Table(w) => match website_apply(w, 0, ("index.html"@, "error.html"@)) {
                    Some(site) => s3_apply(
                        m,
                        i + 1,
                        S3BucketV {
                            access_control: "PublicRead"@,
                            public_website: Some(site),
                            ..acc
                        },
                    ),
                    None => None,
                },
                _ => None,
            }
        } else if k == "no_custom_cleanup"@ {
            match str_of(v) {
                Some(s) => if s == "true"@ {
                    s3_apply(m, i + 1, S3BucketV { no_custom_cleanup: true, ..acc })
                } else if s == "false"@ {
                    s3_apply(m, i + 1, S3BucketV { no_custom_cleanup: false, ..acc })
                } else {
                    None
                },
                None => None,
            }
        } else {
            None
        }
    }
}

pub open spec fn s3_default() -> S3BucketV {
    S3BucketV {
        name: Seq::empty(),
        public_website: None,
        no_custom_cleanup: false,
        access_control: "Private"@,
    }
}

/// The bucket an attribute value describes: a map of known settings with a non-empty name.
pub open spec fn s3_from_attr(a: AttrV) -> Option<S3BucketV> {
    match a {
        AttrV::Table(m) => match s3_apply(m, 0, s3_default()) {
            Some(b) => if b.name.len() > 0 {
                Some(b)
            } else {
                None
            },
            None => None,
        },
        _ => None,
    }
}

impl PublicWebsite {
    /// `index.html` and `error.html`.
    pub fn default() -> (r: PublicWebsite)
        ensures
            r.index_document@ == "index.html"@,
            r.error_document@ == "error.html"@,
    {
        PublicWebsite {
            index_document: to_string("index.html"),
            error_document: to_string("error.html"),
        }
    }
}

impl S3Bucket {
    /// A private bucket with no name, no website, and the cleanup resource.
    pub fn default() -> (r: S3Bucket)
        ensures
            s3_view(r) == s3_default(),
    {
        proof {
            reveal_strlit("");
        }
        S3Bucket {
            name: String::new(),
            public_website: None,
            no_custom_cleanup: false,
            access_control: to_string("Private"),
        }
    }

    /// The bucket that an attribute value describes.
    pub fn from_attribute(value: AttributeValue) -> (r: Result<S3Bucket, ResourceError>)
        ensures
            match s3_from_attr(attr_view(value)) {
                Some(b) => r matches Ok(o) && s3_view(o) == b,
                None => r is Err,
            },
    {
        let m = match &value {
            AttributeValue::Table(m) => m,
            _ => {
                return Err(ResourceError::ExpectedMap(to_string("S3 bucket")));
            },
        };
        proof {
            lemma_entries_view_facts(m@);
        }
        let ghost mv = entries_view(m@);
        let mut out = S3Bucket::default();
        let n = m.len();
        let mut i: usize = 0;
        while i < n
            invariant
                n == m@.len(),
                value matches AttributeValue::Table(mm) && mm == *m,
                mv == entries_view(m@),
                mv.len() == n,
                forall|j: int| 0 <= j < n ==> #[trigger] mv[j] == (m@[j].0@, attr_view(m@[j].1)),
                0 <= i <= n,
                s3_apply(mv, 0, s3_default()) == s3_apply(mv, i as int, s3_view(out)),
            decreases n - i,
        {
            let key = &m[i].0;
            let val = &m[i].1;
            if str_eq(key.as_str(), "name") {
                out.name = match take_str(val, "name") {
                    Ok(s) => s,
                    Err(e) => {
                        return Err(e);
                    },
                };
            } else if str_eq(key.as_str(), "access_control") {
                out.access_control = match take_str(val, "access_control") {
                    Ok(s) => s,
                    Err(e) => {
                        return Err(e);
                    },
                };
            } else if str_eq(key.as_str(), "public_website") {
                let w = match val {
                    AttributeValue::Table(w) => w,
                    _ => {
                        return Err(ResourceError::ExpectedMap(to_string("public_website")));
                    },
                };
                let site = match website_from_entries(w) {
                    Ok(site) => site,
                    Err(e) => {
                        return Err(e);
                    },
                };
                out.access_control = to_string("PublicRead");
                out.public_website = Some(site);
            } else if str_eq(key.as_str(), "no_custom_cleanup") {
                let s = match take_str(val, "no_custom_cleanup") {
                    Ok(s) => s,
                    Err(e) => {
                        return Err(e);
                    },
                };
                if str_eq(s.as_str(), "true") {
                    out.no_custom_cleanup = true;
                } else if str_eq(s.as_str(), "false") {
                    out.no_custom_cleanup = false;
                } else {
                    return Err(ResourceError::InvalidValue(to_string("no_custom_cleanup")));
                }
            } else {
                return Err(ResourceError::UnexpectedKey(key.clone()));
            }
            i = i + 1;
        }
        if out.name.as_str().unicode_len() == 0 {
            return Err(ResourceError::Missing(to_string("name")));
        }
        Ok(out)
    }
}

fn website_from_entries(w: &Vec<(String, AttributeValue)>) -> (r: Result<
    PublicWebsite,
    ResourceError,
>)
    ensures
        match website_apply(entries_view(w@), 0, ("index.html"@, "error.html"@)) {
            Some(p) => r matches Ok(o) && (o.index_document@, o.error_document@) == p,
            None => r is Err,
        },
{
    proof {
        lemma_entries_view_facts(w@);
    }
    let ghost wv = entries_view(w@);
    let mut site = PublicWebsite::default();
    let n = w.len();
    let mut i: usize = 0;
    while i < n
        invariant
            n == w@.len(),
            wv == entries_view(w@),
            wv.len() == n,
            forall|j: int| 0 <= j < n ==> #[trigger] wv[j] == (w@[j].0@, attr_view(w@[j].1)),
            0 <= i <= n,
            website_apply(wv, 0, ("index.html"@, "error.html"@)) == website_apply(
                wv,
                i as int,
                (site.index_document@, site.error_document@),
            ),
        decreases n - i,
    {
        let s = match take_str(&w[i].1, "public_website") {
            Ok(s) => s,
            Err(e) => {
                return Err(e);
            },
        };
        if str_eq(w[i].0.as_str(), "index_document") {
            site.index_document = s;
        } else if str_eq(w[i].0.as_str(), "error_document") {
            site.error_document = s;
        } else {
            return Err(ResourceError::UnexpectedKey(w[i].0.clone()));
        }
        i = i + 1;
    }
    Ok(site)
}


// ---------------------------------------------------------------- lookups

/// The value that a map binds to `k`.
fn map_lookup<'a>(m: &'a Vec<(String, AttributeValue)>, k: &str) -> (r: Option<
    &'a AttributeValue,
>)
    ensures
        match assoc_get(entries_view(m@), k@) {
            Some(v) => r matches Some(x) && attr_view(*x) == v,
            None => r is None,
        },
{
    proof {
        lemma_entries_view_facts(m@);
    }
    let n = m.len();
    let mut i: usize = 0;
    assert(entries_view(m@).subrange(0, n as int) =~= entries_view(m@));
    while i < n
        invariant
            n == m@.len(),
            entries_view(m@).len() == n,
            forall|j: int|
                0 <= j < n ==> #[trigger] entries_view(m@)[j] == (m@[j].0@, attr_view(m@[j].1)),
            0 <= i <= n,
            assoc_get(entries_view(m@), k@) == assoc_get(
                entries_view(m@).subrange(i as int, n as int),
                k@,
            ),
        decreases n - i,
    {
        let ghost rest = entries_view(m@).subrange(i as int, n as int);
        assert(rest.subrange(1, rest.len() as int) =~= entries_view(m@).subrange(
            i + 1,
            n as int,
        ));
        assert(rest[0] == entries_view(m@)[i as int]);
        if str_eq(m[i].0.as_str(), k) {
            return Some(&m[i].1);
        }
        i = i + 1;
    }
    None
}

// ---------------------------------------------------------------- cloudfront

/// One origin of a distribution, with the behavior that routes to it.
#[derive(Debug)]
pub struct OriginAndBehavior {
    pub domain_name: String,
    pub id: String,
    pub origin_protocol_policy: String,
    pub http_port: String,
    pub https_port: String,
}

pub struct OriginV {
    pub domain_name: Seq<char>,
    pub id: Seq<char>,
    pub origin_protocol_policy: Seq<char>,
    pub http_port: Seq<char>,
    pub https_port: Seq<char>,
}

pub open spec fn origin_view(o: OriginAndBehavior) -> OriginV {
    OriginV {
        domain_name: o.domain_name@,
        id: o.id@,
        origin_protocol_policy: o.origin_protocol_policy@,
        http_port: o.http_port@,
        https_port: o.https_port@,
    }
}

pub open spec fn origin_default() -> OriginV {
    OriginV {
        domain_name: Seq::empty(),
        id: Seq::empty(),
        origin_protocol_policy: "http-only"@,
        http_port: "80"@,
        https_port: "443"@,
    }
}

pub open spec fn origin_apply(m: Seq<(Seq<char>, AttrV)>, i: int, acc: OriginV) -> Option<OriginV>
    decreases m.len() - i,
{
    if i < 0 || i >= m.len() {
        Some(acc)
    } else {
        let k = m[i].0;
        match str_of(m[i].1) {
            None => None,
            Some(s) => if k == "domain_name"@ {
                origin_apply(m, i + 1, OriginV { domain_name: s, ..acc })
            } else if k == "id"@ {
                origin_apply(m, i + 1, OriginV { id: s, ..acc })
            } else if k == "origin_protocol_policy"@ {
                origin_apply(m, i + 1, OriginV { origin_protocol_policy: s, ..acc })
            } else if k == "http_port"@ {
                origin_apply(m, i + 1, OriginV { http_port: s, ..acc })
            } else if k == "https_port"@ {
                origin_apply(m, i + 1, OriginV { https_port: s, ..acc })
            } else {
                None
            },
        }
    }
}

/// The origin an attribute value describes: a map of known string settings.
pub open spec fn origin_from_attr(a: AttrV) -> Option<OriginV> {
    match a {
        AttrV::Table(m) => origin_apply(m, 0, origin_default()),
        _ => None,
    }
}

impl OriginAndBehavior {
    /// An origin reached over `http-only` on ports 80 and 443, with no domain and no id.
    pub fn default() -> (r: OriginAndBehavior)
        ensures
            origin_view(r) == origin_default(),
    {
        proof {
            reveal_strlit("");
        }
        OriginAndBehavior {
            domain_name: String::new(),
            id: String::new(),
            origin_protocol_policy: to_string("http-only"),
            http_port: to_string("80"),
            https_port: to_string("443"),
        }
    }

    /// The origin that an attribute value describes.
    pub fn from_attribute(value: &AttributeValue) -> (r: Result<OriginAndBehavior, ResourceError>)
        ensures
            match origin_from_attr(attr_view(*value)) {
                Some(o) => r matches Ok(x) && origin_view(x) == o,
                None => r is Err,
            },
    {
        let m = match value {
            AttributeValue::Table(m) => m,
            _ => {
                return Err(ResourceError::ExpectedMap(to_string("origin/behavior")));
            },
        };
        proof {
            lemma_entries_view_facts(m@);
        }
        let ghost mv = entries_view(m@);
        let mut out = OriginAndBehavior::default();
        let n = m.len();
        let mut i: usize = 0;
        while i < n
            invariant
                n == m@.len(),
                *value matches AttributeValue::Table(mm) && mm == *m,
                mv == entries_view(m@),
                mv.len() == n,
                forall|j: int| 0 <= j < n ==> #[trigger] mv[j] == (m@[j].0@, attr_view(m@[j].1)),
                0 <= i <= n,
                origin_apply(mv, 0, origin_default()) == origin_apply(
                    mv,
                    i as int,
                    origin_view(out),
                ),
            decreases n - i,
        {
            let key = m[i].0.as_str();
            let s = match take_str(&m[i].1, key) {
                Ok(s) => s,
                Err(e) => {
                    return Err(e);
                },
            };
            if str_eq(key, "domain_name") {
                out.domain_name = s;
            } else if str_eq(key, "id") {
                out.id = s;
            } else if str_eq(key, "origin_protocol_policy") {
                out.origin_protocol_policy = s;
            } else if str_eq(key, "http_port") {
                out.http_port = s;
            } else if str_eq(key, "https_port") {
                out.https_port = s;
            } else {
                return Err(ResourceError::UnexpectedKey(m[i].0.clone()));
            }
            i = i + 1;
        }
        Ok(out)
    }
}

/// A distribution as an attribute describes it.
#[derive(Debug)]
pub struct CloudfrontDistribution {
    pub name: String,
    pub comment: String,
    pub acm_certificate_arn: String,
    pub aliases: Vec<String>,
    pub origins_and_behaviors: Vec<OriginAndBehavior>,
}

pub struct DistributionV {
    pub name: Seq<char>,
    pub comment: Seq<char>,
    pub acm_certificate_arn: Seq<char>,
    pub aliases: Seq<Seq<char>>,
    pub origins: Seq<OriginV>,
}

pub open spec fn origins_view(v: Seq<OriginAndBehavior>) -> Seq<OriginV> {
    Seq::new(v.len(), |i: int| origin_view(v[i]))
}

pub open spec fn distribution_view(d: CloudfrontDistribution) -> DistributionV {
    DistributionV {
        name: d.name@,
        comment: d.comment@,
        acm_certificate_arn: d.acm_certificate_arn@,
        aliases: strings_view(d.aliases@),
        origins: origins_view(d.origins_and_behaviors@),
    }
}

/// The origins of a list of origin values.
pub open spec fn origins_of(s: Seq<AttrV>) -> Option<Seq<OriginV>>
    decreases s.len(),
{
    if s.len() == 0 {
        Some(Seq::empty())
    } else {
        match (origin_from_attr(s.last()), origins_of(s.drop_last())) {
            (Some(x), Some(rest)) => Some(rest.push(x)),
            _ => None,
        }
    }
}

pub open spec fn distribution_apply(
    m: Seq<(Seq<char>, AttrV)>,
    i: int,
    acc: DistributionV,
) -> Option<DistributionV>
    decreases m.len() - i,
{
    if i < 0 || i >= m.len() {
        Some(acc)
    } else {
        let k = m[i].0;
        let v = m[i].1;
        if k == "aliases"@ {
            match v {
                AttrV::List(l) => match strs_of(l) {
                    Some(a) => distribution_apply(
                        m,
                        i + 1,
                        DistributionV { aliases: acc.aliases + a, ..acc },
                    ),
                    None => None,
                },
                _ => None,
            }
        } else if k == "origins_and_behaviors"@ {
            match v {
                AttrV::List(l) => match origins_of(l) {
                    Some(o) => distribution_apply(
                        m,
                        i + 1,
                        DistributionV { origins: acc.origins + o, ..acc },
                    ),
                    None => None,
                },
                _ => None,
            }
        } else {
            match str_of(v) {
                None => None,
                Some(s) => if k == "acm_certificate_arn"@ {
                    distribution_apply(m, i + 1, DistributionV { acm_certificate_arn: s, ..acc })
                } else if k == "comment"@ || k == "description"@ {
                    distribution_apply(m, i + 1, DistributionV { comment: s, ..acc })
                } else if k == "name"@ {
                    distribution_apply(m, i + 1, DistributionV { name: s, ..acc })
                } else {
                    None
                },
            }
        }
    }
}

/// The distribution an attribute value describes; a first origin without an id gets the
/// id `default-origin`.
pub open spec fn distribution_from_attr(a: AttrV) -> Option<DistributionV> {
    match a {
        AttrV::Table(m) => match distribution_apply(
            m,
            0,
            DistributionV {
                name: Seq::empty(),
                comment: Seq::empty(),
                acm_certificate_arn: Seq::empty(),
                aliases: Seq::empty(),
                origins: Seq::empty(),
            },
        ) {
            Some(d) => if d.origins.len() > 0 && d.origins[0].id.len() == 0 {
                Some(
                    DistributionV {
                        origins: d.origins.update(
                            0,
                            OriginV { id: "default-origin"@, ..d.origins[0] },
                        ),
                        ..d
                    },
                )
            } else {
                Some(d)
            },
            None => None,
        },
        _ => None,
    }
}

proof fn lemma_origins_prefix_fail(s: Seq<AttrV>, k: int)
    requires
        0 < k <= s.len(),
        origins_of(s.subrange(0, k)) is None,
    ensures
        origins_of(s) is None,
    decreases s.len() - k,
{
    if k < s.len() {
        assert(s.subrange(0, k + 1).drop_last() =~= s.subrange(0, k));
        lemma_origins_prefix_fail(s, k + 1);
    } else {
        assert(s.subrange(0, k) =~= s);
    }
}

/// Appends the origins of a list of origin values.
fn take_origins(v: &Vec<AttributeValue>, out: &mut Vec<OriginAndBehavior>) -> (r: Result<
    (),
    ResourceError,
>)
    ensures
        match origins_of(attrs_view(v@)) {
            Some(o) => r is Ok && origins_view(final(out)@) == origins_view(old(out)@) + o,
            None => r is Err,
        },
{
    proof {
        lemma_attrs_view_facts(v@);
    }
    let ghost start = origins_view(out@);
    let n = v.len();
    let mut i: usize = 0;
    assert(origins_view(out@) =~= start + Seq::<OriginV>::empty());
    while i < n
        invariant
            n == v@.len(),
            0 <= i <= n,
            attrs_view(v@).len() == n,
            forall|j: int| 0 <= j < n ==> #[trigger] attrs_view(v@)[j] == attr_view(v@[j]),
            origins_of(attrs_view(v@).subrange(0, i as int)) matches Some(o) && origins_view(
                out@,
            ) == start + o,
        decreases n - i,
    {
        let ghost pre = attrs_view(v@).subrange(0, i + 1);
        assert(pre.drop_last() =~= attrs_view(v@).subrange(0, i as int));
        assert(pre.last() == attr_view(v@[i as int]));
        let o = match OriginAndBehavior::from_attribute(&v[i]) {
            Ok(o) => o,
            Err(e) => {
                proof {
                    lemma_origins_prefix_fail(attrs_view(v@), i as int + 1);
                }
                return Err(e);
            },
        };
        let ghost before = out@;
        out.push(o);
        assert(origins_view(out@) =~= origins_view(before).push(origin_view(o)));
        i = i + 1;
    }
    assert(attrs_view(v@).subrange(0, n as int) =~= attrs_view(v@));
    Ok(())
}

impl CloudfrontDistribution {
    /// The distribution that an attribute value describes.
    pub fn from_attribute(value: AttributeValue) -> (r: Result<
        CloudfrontDistribution,
        ResourceError,
    >)
        ensures
            match distribution_from_attr(attr_view(value)) {
                Some(d) => r matches Ok(o) && distribution_view(o) == d,
                None => r is Err,
            },
    {
        let m = match &value {
            AttributeValue::Table(m) => m,
            _ => {
                return Err(ResourceError::ExpectedMap(to_string("cloudfront distribution")));
            },
        };
        proof {
            lemma_entries_view_facts(m@);
            reveal_strlit("");
        }
        let ghost mv = entries_view(m@);
        let mut out = CloudfrontDistribution {
            name: String::new(),
            comment: String::new(),
            acm_certificate_arn: String::new(),
            aliases: Vec::new(),
            origins_and_behaviors: Vec::new(),
        };
        assert(strings_view(out.aliases@) =~= Seq::<Seq<char>>::empty());
        assert(origins_view(out.origins_and_behaviors@) =~= Seq::<OriginV>::empty());
        let n = m.len();
        let mut i: usize = 0;
        while i < n
            invariant
                n == m@.len(),
                value matches AttributeValue::Table(mm) && mm == *m,
                mv == entries_view(m@),
                mv.len() == n,
                forall|j: int| 0 <= j < n ==> #[trigger] mv[j] == (m@[j].0@, attr_view(m@[j].1)),
                0 <= i <= n,
                distribution_apply(
                    mv,
                    0,
                    DistributionV {
                        name: Seq::empty(),
                        comment: Seq::empty(),
                        acm_certificate_arn: Seq::empty(),
                        aliases: Seq::empty(),
                        origins: Seq::empty(),
                    },
                ) == distribution_apply(mv, i as int, distribution_view(out)),
            decreases n - i,
        {
            let key = m[i].0.as_str();
            let val = &m[i].1;
            if str_eq(key, "aliases") {
                let l = match val {
                    AttributeValue::List(l) => l,
                    _ => {
                        return Err(ResourceError::ExpectedList(to_string("aliases")));
                    },
                };
                let mut a = match take_strs(l, "alias") {
                    Ok(a) => a,
                    Err(e) => {
                        return Err(e);
                    },
                };
                let ghost before = out.aliases@;
                let ghost added = a@;
                out.aliases.append(&mut a);
                assert(strings_view(out.aliases@) =~= strings_view(before) + strings_view(added));
            } else if str_eq(key, "origins_and_behaviors") {
                let l = match val {
                    AttributeValue::List(l) => l,
                    _ => {
                        return Err(ResourceError::ExpectedList(to_string("origins_and_behaviors")));
                    },
                };
                match take_origins(l, &mut out.origins_and_behaviors) {
                    Ok(()) => {},
                    Err(e) => {
                        return Err(e);
                    },
                }
            } else {
                let s = match take_str(val, key) {
                    Ok(s) => s,
                    Err(e) => {
                        return Err(e);
                    },
                };
                if str_eq(key, "acm_certificate_arn") {
                    out.acm_certificate_arn = s;
                } else if str_eq(key, "comment") || str_eq(key, "description") {
                    out.comment = s;
                } else if str_eq(key, "name") {
                    out.name = s;
                } else {
                    return Err(ResourceError::UnexpectedKey(m[i].0.clone()));
                }
            }
            i = i + 1;
        }
        if out.origins_and_behaviors.len() > 0 {
            if out.origins_and_behaviors[0].id.as_str().unicode_len() == 0 {
                let ghost before = out.origins_and_behaviors@;
                let first = out.origins_and_behaviors.remove(0);
                let fixed = OriginAndBehavior {
                    domain_name: first.domain_name,
                    id: to_string("default-origin"),
                    origin_protocol_policy: first.origin_protocol_policy,
                    http_port: first.http_port,
                    https_port: first.https_port,
                };
                out.origins_and_behaviors.insert(0, fixed);
                assert(origins_view(out.origins_and_behaviors@) =~= origins_view(before).update(
                    0,
                    OriginV { id: "default-origin"@, ..origins_view(before)[0] },
                ));
            }
        }
        Ok(out)
    }
}

// ---------------------------------------------------------------- route53

/// A DNS record as an attribute describes it.
#[derive(Debug)]
pub struct Route53RecordSet {
    pub record_type: String,
    pub name: String,
    pub hosted_zone_name: String,
    pub alias_target_dns_name: String,
    pub alias_target_hosted_zone_id: String,
}

pub struct RecordV {
    pub record_type: Seq<char>,
    pub name: Seq<char>,
    pub hosted_zone_name: Seq<char>,
    pub alias_target_dns_name: Seq<char>,
    pub alias_target_hosted_zone_id: Seq<char>,
}

pub open spec fn record_view(r: Route53RecordSet) -> RecordV {
    RecordV {
        record_type: r.record_type@,
        name: r.name@,
        hosted_zone_name: r.hosted_zone_name@,
        alias_target_dns_name: r.alias_target_dns_name@,
        alias_target_hosted_zone_id: r.alias_target_hosted_zone_id@,
    }
}

pub open spec fn record_apply(m: Seq<(Seq<char>, AttrV)>, i: int, acc: RecordV) -> Option<RecordV>
    decreases m.len() - i,
{
    if i < 0 || i >= m.len() {
        Some(acc)
    } else {
        let k = m[i].0;
        match str_of(m[i].1) {
            None => None,
            Some(s) => if k == "record_type"@ {
                record_apply(m, i + 1, RecordV { record_type: s, ..acc })
            } else if k == "name"@ {
                record_apply(m, i + 1, RecordV { name: s, ..acc })
            } else if k == "hosted_zone_name"@ {
                record_apply(m, i + 1, RecordV { hosted_zone_name: s, ..acc })
            } else if k == "alias_target_dns_name"@ {
                record_apply(m, i + 1, RecordV { alias_target_dns_name: s, ..acc })
            } else if k == "alias_target_hosted_zone_id"@ {
                record_apply(m, i + 1, RecordV { alias_target_hosted_zone_id: s, ..acc })
            } else {
                None
            },
        }
    }
}

/// The index of the last `.` before index `end`.
pub open spec fn last_dot_before(s: Seq<char>, end: int) -> Option<int>
    decreases end,
{
    if end <= 0 || end > s.len() {
        None
    } else if s[end - 1] == '.' {
        Some(end - 1)
    } else {
        last_dot_before(s, end - 1)
    }
}

/// The last two `.`-separated labels of a name, when it has a `.`.
pub open spec fn last_two_labels(s: Seq<char>) -> Option<Seq<char>> {
    match last_dot_before(s, s.len() as int) {
        None => None,
        Some(d1) => match last_dot_before(s, d1) {
            Some(d2) => Some(s.subrange(d2 + 1, s.len() as int)),
            None => Some(s),
        },
    }
}

pub open spec fn with_trailing_dot(s: Seq<char>) -> Seq<char> {
    if s.len() > 0 && s.last() == '.' {
        s
    } else {
        s.push('.')
    }
}

/// The record an attribute value describes: a map of known string settings with a name.
/// A missing hosted zone name is taken from the last two labels of the record name, and
/// the hosted zone name always ends in `.`.
pub open spec fn record_from_attr(a: AttrV) -> Option<RecordV> {
    match a {
        AttrV::Table(m) => match record_apply(
            m,
            0,
            RecordV {
                record_type: Seq::empty(),
                name: Seq::empty(),
                hosted_zone_name: Seq::empty(),
                alias_target_dns_name: Seq::empty(),
                alias_target_hosted_zone_id: Seq::empty(),
            },
        ) {
            Some(r) => if r.name.len() == 0 {
                None
            } else if r.hosted_zone_name.len() == 0 {
                match last_two_labels(r.name) {
                    Some(z) => Some(RecordV { hosted_zone_name: with_trailing_dot(z), ..r }),
                    None => None,
                }
            } else {
                Some(RecordV { hosted_zone_name: with_trailing_dot(r.hosted_zone_name), ..r })
            },
            None => None,
        },
        _ => None,
    }
}

fn find_last_dot(s: &str, end: usize) -> (r: Option<usize>)
    requires
        end <= s@.len(),
    ensures
        match r {
            Some(k) => last_dot_before(s@, end as int) == Some(k as int) && k < end,
            None => last_dot_before(s@, end as int) is None,
        },
{
    let mut e = end;
    while e > 0
        invariant
            e <= end <= s@.len(),
            last_dot_before(s@, end as int) == last_dot_before(s@, e as int),
        decreases e,
    {
        if s.get_char(e - 1) == '.' {
            return Some(e - 1);
        }
        e = e - 1;
    }
    None
}

/// Appends `.` unless the text already ends with one.
fn add_trailing_dot(s: String) -> (r: String)
    ensures
        r@ == with_trailing_dot(s@),
{
    let n = s.as_str().unicode_len();
    if n > 0 && s.as_str().get_char(n - 1) == '.' {
        s
    } else {
        let mut s = s;
        crate::text::push_char(&mut s, '.');
        s
    }
}

impl Route53RecordSet {
    /// The record that an attribute value describes.
    pub fn from_attribute(value: AttributeValue) -> (r: Result<Route53RecordSet, ResourceError>)
        ensures
            match record_from_attr(attr_view(value)) {
                Some(x) => r matches Ok(o) && record_view(o) == x,
                None => r is Err,
            },
    {
        let m = match &value {
            AttributeValue::Table(m) => m,
            _ => {
                return Err(ResourceError::ExpectedMap(to_string("route53 record set")));
            },
        };
        proof {
            lemma_entries_view_facts(m@);
            reveal_strlit("");
        }
        let ghost mv = entries_view(m@);
        let mut out = Route53RecordSet {
            record_type: String::new(),
            name: String::new(),
            hosted_zone_name: String::new(),
            alias_target_dns_name: String::new(),
            alias_target_hosted_zone_id: String::new(),
        };
        let n = m.len();
        let mut i: usize = 0;
        while i < n
            invariant
                n == m@.len(),
                value matches AttributeValue::Table(mm) && mm == *m,
                mv == entries_view(m@),
                mv.len() == n,
                forall|j: int| 0 <= j < n ==> #[trigger] mv[j] == (m@[j].0@, attr_view(m@[j].1)),
                0 <= i <= n,
                record_apply(
                    mv,
                    0,
                    RecordV {
                        record_type: Seq::empty(),
                        name: Seq::empty(),
                        hosted_zone_name: Seq::empty(),
                        alias_target_dns_name: Seq::empty(),
                        alias_target_hosted_zone_id: Seq::empty(),
                    },
                ) == record_apply(mv, i as int, record_view(out)),
            decreases n - i,
        {
            let key = m[i].0.as_str();
            let s = match take_str(&m[i].1, key) {
                Ok(s) => s,
                Err(e) => {
                    return Err(e);
                },
            };
            if str_eq(key, "record_type") {
                out.record_type = s;
            } else if str_eq(key, "name") {
                out.name = s;
            } else if str_eq(key, "hosted_zone_name") {
                out.hosted_zone_name = s;
            } else if str_eq(key, "alias_target_dns_name") {
                out.alias_target_dns_name = s;
            } else if str_eq(key, "alias_target_hosted_zone_id") {
                out.alias_target_hosted_zone_id = s;
            } else {
                return Err(ResourceError::UnexpectedKey(m[i].0.clone()));
            }
            i = i + 1;
        }
        let ghost applied = record_view(out);
        assert(record_apply(
            mv,
            0,
            RecordV {
                record_type: Seq::empty(),
                name: Seq::empty(),
                hosted_zone_name: Seq::empty(),
                alias_target_dns_name: Seq::empty(),
                alias_target_hosted_zone_id: Seq::empty(),
            },
        ) == Some(applied));
        let name_len = out.name.as_str().unicode_len();
        if name_len == 0 {
            return Err(ResourceError::Missing(to_string("name")));
        }
        if out.hosted_zone_name.as_str().unicode_len() == 0 {
            let d1 = match find_last_dot(out.name.as_str(), name_len) {
                Some(d) => d,
                None => {
                    return Err(ResourceError::InvalidValue(to_string("name")));
                },
            };
            let zone = match find_last_dot(out.name.as_str(), d1) {
                Some(d2) => to_string(out.name.as_str().substring_char(d2 + 1, name_len)),
                None => out.name.clone(),
            };
            out.hosted_zone_name = zone;
        }
        let mut zone = String::new();
        std::mem::swap(&mut zone, &mut out.hosted_zone_name);
        out.hosted_zone_name = add_trailing_dot(zone);
        Ok(out)
    }
}

// ---------------------------------------------------------------- static website

/// A static website as an attribute describes it.
#[derive(Debug)]
pub struct StaticWebsite {
    pub url: String,
    pub acm_arn: String,
}

pub open spec fn website_settings_apply(
    m: Seq<(Seq<char>, AttrV)>,
    i: int,
    acc: (Seq<char>, Seq<char>),
) -> Option<(Seq<char>, Seq<char>)>
    decreases m.len() - i,
{
    if i < 0 || i >= m.len() {
        Some(acc)
    } else {
        let k = m[i].0;
        match str_of(m[i].1) {
            None => None,
            Some(s) => if k == "url"@ {
                website_settings_apply(m, i + 1, (s, acc.1))
            } else if k == "acm_arn"@ {
                website_settings_apply(m, i + 1, (acc.0, s))
            } else {
                None
            },
        }
    }
}

/// The (url, certificate) pair an attribute value describes; both must be non-empty.
pub open spec fn static_website_from_attr(a: AttrV) -> Option<(Seq<char>, Seq<char>)> {
    match a {
        AttrV::Table(m) => match website_settings_apply(m, 0, (Seq::empty(), Seq::empty())) {
            Some(p) => if p.0.len() > 0 && p.1.len() > 0 {
                Some(p)
            } else {
                None
            },
            None => None,
        },
        _ => None,
    }
}

impl StaticWebsite {
    /// The website that an attribute value describes.
    pub fn from_attribute(value: AttributeValue) -> (r: Result<StaticWebsite, ResourceError>)
        ensures
            match static_website_from_attr(attr_view(value)) {
                Some(p) => r matches Ok(o) && (o.url@, o.acm_arn@) == p,
                None => r is Err,
            },
    {
        let m = match &value {
            AttributeValue::Table(m) => m,
            _ => {
                return Err(ResourceError::ExpectedMap(to_string("static website")));
            },
        };
        proof {
            lemma_entries_view_facts(m@);
            reveal_strlit("");
        }
        let ghost mv = entries_view(m@);
        let mut out = StaticWebsite { url: String::new(), acm_arn: String::new() };
        let n = m.len();
        let mut i: usize = 0;
        while i < n
            invariant
                n == m@.len(),
                value matches AttributeValue::Table(mm) && mm == *m,
                mv == entries_view(m@),
                mv.len() == n,
                forall|j: int| 0 <= j < n ==> #[trigger] mv[j] == (m@[j].0@, attr_view(m@[j].1)),
                0 <= i <= n,
                website_settings_apply(mv, 0, (Seq::empty(), Seq::empty()))
                    == website_settings_apply(mv, i as int, (out.url@, out.acm_arn@)),
            decreases n - i,
        {
            let key = m[i].0.as_str();
            let s = match take_str(&m[i].1, key) {
                Ok(s) => s,
                Err(e) => {
                    return Err(e);
                },
            };
            if str_eq(key, "url") {
                out.url = s;
            } else if str_eq(key, "acm_arn") {
                out.acm_arn = s;
            } else {
                return Err(ResourceError::UnexpectedKey(m[i].0.clone()));
            }
            i = i + 1;
        }
        if out.url.as_str().unicode_len() == 0 {
            return Err(ResourceError::Missing(to_string("url")));
        }
        if out.acm_arn.as_str().unicode_len() == 0 {
            return Err(ResourceError::Missing(to_string("acm_arn")));
        }
        Ok(out)
    }
}


// ---------------------------------------------------------------- lambda

/// One statement of a function's policy.
#[derive(Debug)]
pub struct PolicyStatement {
    pub effect: String,
    pub action: String,
    pub resource: String,
}

pub struct PolicyV {
    pub effect: Seq<char>,
    pub action: Seq<char>,
    pub resource: Seq<char>,
}

pub open spec fn policy_view(p: PolicyStatement) -> PolicyV {
    PolicyV { effect: p.effect@, action: p.action@, resource: p.resource@ }
}

/// The statement a map describes: `effect` (`Allow` when absent, else `Allow` or `Deny`),
/// `action` and `resource`, all strings; other keys are not read.
pub open spec fn policy_from_map(m: Seq<(Seq<char>, AttrV)>) -> Option<PolicyV> {
    let effect = match assoc_get(m, "effect"@) {
        Some(v) => str_of(v),
        None => Some("Allow"@),
    };
    match effect {
        None => None,
        Some(e) => if e != "Deny"@ && e != "Allow"@ {
            None
        } else {
            match assoc_get(m, "action"@) {
                None => None,
                Some(av) => match str_of(av) {
                    None => None,
                    Some(a) => match assoc_get(m, "resource"@) {
                        None => None,
                        Some(rv) => match str_of(rv) {
                            None => None,
                            Some(r) => Some(PolicyV { effect: e, action: a, resource: r }),
                        },
                    },
                },
            }
        },
    }
}

impl PolicyStatement {
    /// The statement that a map describes, which must be a valid one: the effect `Allow`
    /// (when absent) or `Deny`, and string action and resource.
    pub fn from_attribute_map(map: Vec<(String, AttributeValue)>) -> (r: PolicyStatement)
        requires
            policy_from_map(entries_view(map@)) is Some,
        ensures
            policy_from_map(entries_view(map@)) == Some(policy_view(r)),
    {
        match Self::try_from_attribute_map(map) {
            Ok(p) => p,
            Err(_) => vstd::pervasive::unreached(),
        }
    }

    /// The statement that a map describes, or why it describes none.
    pub fn try_from_attribute_map(map: Vec<(String, AttributeValue)>) -> (r: Result<
        PolicyStatement,
        ResourceError,
    >)
        ensures
            match policy_from_map(entries_view(map@)) {
                Some(p) => r matches Ok(o) && policy_view(o) == p,
                None => r is Err,
            },
    {
        let effect = match map_lookup(&map, "effect") {
            Some(v) => match take_str(v, "effect") {
                Ok(s) => s,
                Err(e) => {
                    return Err(e);
                },
            },
            None => to_string("Allow"),
        };
        if !str_eq(effect.as_str(), "Deny") && !str_eq(effect.as_str(), "Allow") {
            return Err(ResourceError::InvalidValue(to_string("effect")));
        }
        let action = match map_lookup(&map, "action") {
            Some(v) => match take_str(v, "action") {
                Ok(s) => s,
                Err(e) => {
                    return Err(e);
                },
            },
            None => {
                return Err(ResourceError::Missing(to_string("action")));
            },
        };
        let resource = match map_lookup(&map, "resource") {
            Some(v) => match take_str(v, "resource") {
                Ok(s) => s,
                Err(e) => {
                    return Err(e);
                },
            },
            None => {
                return Err(ResourceError::Missing(to_string("resource")));
            },
        };
        Ok(PolicyStatement { effect, action, resource })
    }
}

/// What invokes a function.
#[derive(Debug)]
pub enum LambdaTrigger {
    FunctionUrl {
        auth_type: String,
        cors_max_age: String,
        cors_expose_headers: Vec<String>,
        cors_allow_origins: Vec<String>,
        cors_allow_methods: Vec<String>,
        cors_allow_headers: Vec<String>,
        cors_allow_credentials: bool,
    },
}

pub struct TriggerV {
    pub auth_type: Seq<char>,
    pub cors_max_age: Seq<char>,
    pub cors_expose_headers: Seq<Seq<char>>,
    pub cors_allow_origins: Seq<Seq<char>>,
    pub cors_allow_methods: Seq<Seq<char>>,
    pub cors_allow_headers: Seq<Seq<char>>,
    pub cors_allow_credentials: bool,
}

pub open spec fn trigger_view(t: LambdaTrigger) -> TriggerV {
    match t {
        LambdaTrigger::FunctionUrl {
            auth_type,
            cors_max_age,
            cors_expose_headers,
            cors_allow_origins,
            cors_allow_methods,
            cors_allow_headers,
            cors_allow_credentials,
        } => TriggerV {
            auth_type: auth_type@,
            cors_max_age: cors_max_age@,
            cors_expose_headers: strings_view(cors_expose_headers@),
            cors_allow_origins: strings_view(cors_allow_origins@),
            cors_allow_methods: strings_view(cors_allow_methods@),
            cors_allow_headers: strings_view(cors_allow_headers@),
            cors_allow_credentials,
        },
    }
}

/// An optional setting: absent gives `Some(default)`, present gives what `f` reads of it.
pub open spec fn opt_setting<T>(v: Option<AttrV>, default: T, f: spec_fn(AttrV) -> Option<T>) -> Option<T> {
    match v {
        None => Some(default),
        Some(x) => f(x),
    }
}

pub open spec fn list_of_strs(v: AttrV) -> Option<Seq<Seq<char>>> {
    match v {
        AttrV::List(l) => strs_of(l),
        _ => None,
    }
}

pub open spec fn bool_of(v: AttrV) -> Option<bool> {
    match str_of(v) {
        Some(s) => if s == "true"@ {
            Some(true)
        } else if s == "false"@ {
            Some(false)
        } else {
            None
        },
        None => None,
    }
}

/// The trigger a value describes: a map with `type: "function_url"`, an `auth_type` of
/// `NONE` (the default) or `AWS_IAM`, and optional CORS settings (max age `0`, no exposed
/// or allowed headers, all origins and methods, no credentials unless given); other keys
/// are not read.
pub open spec fn trigger_from_attr(a: AttrV) -> Option<TriggerV> {
    match a {
        AttrV::Table(m) => match assoc_get(m, "type"@) {
            None => None,
            Some(tv) => match str_of(tv) {
                None => None,
                Some(t) => if t != "function_url"@ {
                    None
                } else {
                    let auth = opt_setting(assoc_get(m, "auth_type"@), "NONE"@, |x| str_of(x));
                    let age = opt_setting(assoc_get(m, "cors_max_age"@), "0"@, |x| str_of(x));
                    let expose = opt_setting(
                        assoc_get(m, "cors_expose_headers"@),
                        Seq::empty(),
                        |x| list_of_strs(x),
                    );
                    let origins = opt_setting(
                        assoc_get(m, "cors_allow_origins"@),
                        seq!["*"@],
                        |x| list_of_strs(x),
                    );
                    let methods = opt_setting(
                        assoc_get(m, "cors_allow_methods"@),
                        seq!["*"@],
                        |x| list_of_strs(x),
                    );
                    let headers = opt_setting(
                        assoc_get(m, "cors_allow_headers"@),
                        Seq::empty(),
                        |x| list_of_strs(x),
                    );
                    let creds = opt_setting(
                        assoc_get(m, "cors_allow_credentials"@),
                        false,
                        |x| bool_of(x),
                    );
                    if auth is None || (auth->Some_0 != "NONE"@ && auth->Some_0 != "AWS_IAM"@)
                        || age is None || expose is None || origins is None || methods is None
                        || headers is None || creds is None {
                        None
                    } else {
                        Some(
                            TriggerV {
                                auth_type: auth->Some_0,
                                cors_max_age: age->Some_0,
                                cors_expose_headers: expose->Some_0,
                                cors_allow_origins: origins->Some_0,
                                cors_allow_methods: methods->Some_0,
                                cors_allow_headers: headers->Some_0,
                                cors_allow_credentials: creds->Some_0,
                            },
                        )
                    }
                },
            },
        },
        _ => None,
    }
}

/// The strings of an optional list setting, or `default` when it is absent.
fn opt_str_list(m: &Vec<(String, AttributeValue)>, key: &str, default: Vec<String>) -> (r: Result<
    Vec<String>,
    ResourceError,
>)
    ensures
        match opt_setting(
            assoc_get(entries_view(m@), key@),
            strings_view(default@),
            |x| list_of_strs(x),
        ) {
            Some(v) => r matches Ok(o) && strings_view(o@) == v,
            None => r is Err,
        },
{
    match map_lookup(m, key) {
        None => Ok(default),
        Some(v) => match v {
            AttributeValue::List(l) => take_strs(l, key),
            _ => Err(ResourceError::ExpectedList(to_string(key))),
        },
    }
}

impl LambdaTrigger {
    /// The trigger that an attribute value describes, which must be a valid one: a table
    /// of type `function_url`, with auth type `NONE` (when absent) or `AWS_IAM`, and settings
    /// of the right kinds.
    pub fn from_attribute(val: AttributeValue) -> (r: LambdaTrigger)
        requires
            trigger_from_attr(attr_view(val)) is Some,
        ensures
            trigger_from_attr(attr_view(val)) == Some(trigger_view(r)),
    {
        match Self::try_from_attribute(val) {
            Ok(t) => t,
            Err(_) => vstd::pervasive::unreached(),
        }
    }

    /// The trigger that an attribute value describes, or why it describes none.
    pub fn try_from_attribute(val: AttributeValue) -> (r: Result<LambdaTrigger, ResourceError>)
        ensures
            match trigger_from_attr(attr_view(val)) {
                Some(t) => r matches Ok(o) && trigger_view(o) == t,
                None => r is Err,
            },
    {
        let m = match &val {
            AttributeValue::Table(m) => m,
            _ => {
                return Err(ResourceError::ExpectedMap(to_string("lambda trigger")));
            },
        };
        let trigger_type = match map_lookup(m, "type") {
            Some(t) => match take_str(t, "type") {
                Ok(s) => s,
                Err(e) => {
                    return Err(e);
                },
            },
            None => {
                return Err(ResourceError::Missing(to_string("type")));
            },
        };
        if !str_eq(trigger_type.as_str(), "function_url") {
            return Err(ResourceError::InvalidValue(to_string("type")));
        }
        let auth_type = match map_lookup(m, "auth_type") {
            Some(v) => match take_str(v, "auth_type") {
                Ok(s) => s,
                Err(e) => {
                    return Err(e);
                },
            },
            None => to_string("NONE"),
        };
        if !str_eq(auth_type.as_str(), "NONE") && !str_eq(auth_type.as_str(), "AWS_IAM") {
            return Err(ResourceError::InvalidValue(to_string("auth_type")));
        }
        let cors_max_age = match map_lookup(m, "cors_max_age") {
            Some(v) => match take_str(v, "cors_max_age") {
                Ok(s) => s,
                Err(e) => {
                    return Err(e);
                },
            },
            None => to_string("0"),
        };
        let empty: Vec<String> = Vec::new();
        assert(strings_view(empty@) =~= Seq::<Seq<char>>::empty());
        let cors_expose_headers = match opt_str_list(m, "cors_expose_headers", empty) {
            Ok(v) => v,
            Err(e) => {
                return Err(e);
            },
        };
        let mut star: Vec<String> = Vec::new();
        star.push(to_string("*"));
        assert(strings_view(star@) =~= seq!["*"@]);
        let cors_allow_origins = match opt_str_list(m, "cors_allow_origins", star) {
            Ok(v) => v,
            Err(e) => {
                return Err(e);
            },
        };
        let mut star: Vec<String> = Vec::new();
        star.push(to_string("*"));
        assert(strings_view(star@) =~= seq!["*"@]);
        let cors_allow_methods = match opt_str_list(m, "cors_allow_methods", star) {
            Ok(v) => v,
            Err(e) => {
                return Err(e);
            },
        };
        let empty: Vec<String> = Vec::new();
        assert(strings_view(empty@) =~= Seq::<Seq<char>>::empty());
        let cors_allow_headers = match opt_str_list(m, "cors_allow_headers", empty) {
            Ok(v) => v,
            Err(e) => {
                return Err(e);
            },
        };
        let cors_allow_credentials = match map_lookup(m, "cors_allow_credentials") {
            Some(v) => {
                let s = match take_str(v, "cors_allow_credentials") {
                    Ok(s) => s,
                    Err(e) => {
                        return Err(e);
                    },
                };
                if str_eq(s.as_str(), "true") {
                    true
                } else if str_eq(s.as_str(), "false") {
                    false
                } else {
                    return Err(ResourceError::InvalidValue(to_string("cors_allow_credentials")));
                }
            },
            None => false,
        };
        Ok(
            LambdaTrigger::FunctionUrl {
                auth_type,
                cors_max_age,
                cors_expose_headers,
                cors_allow_origins,
                cors_allow_methods,
                cors_allow_headers,
                cors_allow_credentials,
            },
        )
    }
}


/// A function as an attribute describes it.
#[derive(Debug)]
pub struct LambdaFunction {
    pub memory: String,
    pub timeout: String,
    /// name, value pairs; each name once
    pub environment_variables: Vec<(String, String)>,
    /// name, value pairs; each name once
    pub tags: Vec<(String, String)>,
    pub description: String,
    pub policy_statements: Vec<PolicyStatement>,
    pub triggers: Vec<LambdaTrigger>,
}

pub struct LambdaV {
    pub memory: Seq<char>,
    pub timeout: Seq<char>,
    pub environment_variables: Seq<(Seq<char>, Seq<char>)>,
    pub tags: Seq<(Seq<char>, Seq<char>)>,
    pub description: Seq<char>,
    pub policy_statements: Seq<PolicyV>,
    pub triggers: Seq<TriggerV>,
}

pub open spec fn pairs_view(v: Seq<(String, String)>) -> Seq<(Seq<char>, Seq<char>)> {
    Seq::new(v.len(), |i: int| (v[i].0@, v[i].1@))
}

pub open spec fn lambda_view(f: LambdaFunction) -> LambdaV {
    LambdaV {
        memory: f.memory@,
        timeout: f.timeout@,
        environment_variables: pairs_view(f.environment_variables@),
        tags: pairs_view(f.tags@),
        description: f.description@,
        policy_statements: Seq::new(
            f.policy_statements@.len(),
            |i: int| policy_view(f.policy_statements@[i]),
        ),
        triggers: Seq::new(f.triggers@.len(), |i: int| trigger_view(f.triggers@[i])),
    }
}

pub open spec fn lambda_default() -> LambdaV {
    LambdaV {
        memory: "128"@,
        timeout: "30"@,
        environment_variables: Seq::empty(),
        tags: Seq::empty(),
        description: Seq::empty(),
        policy_statements: Seq::empty(),
        triggers: Seq::empty(),
    }
}

/// String settings of a map added to `acc` in order.
pub open spec fn str_entries_into(
    m: Seq<(Seq<char>, AttrV)>,
    acc: Seq<(Seq<char>, Seq<char>)>,
) -> Option<Seq<(Seq<char>, Seq<char>)>>
    decreases m.len(),
{
    if m.len() == 0 {
        Some(acc)
    } else {
        match str_of(m[0].1) {
            None => None,
            Some(v) => str_entries_into(
                m.subrange(1, m.len() as int),
                crate::attributes::assoc_put(acc, m[0].0, v),
            ),
        }
    }
}

pub open spec fn triggers_of(s: Seq<AttrV>) -> Option<Seq<TriggerV>>
    decreases s.len(),
{
    if s.len() == 0 {
        Some(Seq::empty())
    } else {
        match (trigger_from_attr(s.last()), triggers_of(s.drop_last())) {
            (Some(x), Some(rest)) => Some(rest.push(x)),
            _ => None,
        }
    }
}

pub open spec fn policies_of(s: Seq<AttrV>) -> Option<Seq<PolicyV>>
    decreases s.len(),
{
    if s.len() == 0 {
        Some(Seq::empty())
    } else {
        let p = match s.last() {
            AttrV::Table(m) => policy_from_map(m),
            _ => None,
        };
        match (p, policies_of(s.drop_last())) {
            (Some(x), Some(rest)) => Some(rest.push(x)),
            _ => None,
        }
    }
}

pub open spec fn lambda_apply(m: Seq<(Seq<char>, AttrV)>, i: int, acc: LambdaV) -> Option<LambdaV>
    decreases m.len() - i,
{
    if i < 0 || i >= m.len() {
        Some(acc)
    } else {
        let k = m[i].0;
        let v = m[i].1;
        if k == "memory"@ {
            match str_of(v) {
                Some(s) => lambda_apply(m, i + 1, LambdaV { memory: s, ..acc }),
                None => None,
            }
        } else if k == "timeout"@ {
            match str_of(v) {
                Some(s) => lambda_apply(m, i + 1, LambdaV { timeout: s, ..acc }),
                None => None,
            }
        } else if k == "description"@ {
            match str_of(v) {
                Some(s) => lambda_apply(m, i + 1, LambdaV { description: s, ..acc }),
                None => None,
            }
        } else if k == "triggers"@ {
            match v {
                AttrV::List(l) => match triggers_of(l) {
                    Some(t) => lambda_apply(m, i + 1, LambdaV { triggers: acc.triggers + t, ..acc }),
                    None => None,
                },
                _ => None,
            }
        } else if k == "policy_statements"@ {
            match v {
                AttrV::List(l) => match policies_of(l) {
                    Some(p) => lambda_apply(
                        m,
                        i + 1,
                        LambdaV { policy_statements: acc.policy_statements + p, ..acc },
                    ),
                    None => None,
                },
                _ => None,
            }
        } else if k == "environment_variables"@ {
            match v {
                AttrV::Table(e) => match str_entries_into(e, acc.environment_variables) {
                    Some(env) => lambda_apply(
                        m,
                        i + 1,
                        LambdaV { environment_variables: env, ..acc },
                    ),
                    None => None,
                },
                _ => None,
            }
        } else if k == "tags"@ {
            match v {
                AttrV::Table(e) => match str_entries_into(e, acc.tags) {
                    Some(t) => lambda_apply(m, i + 1, LambdaV { tags: t, ..acc }),
                    None => None,
                },
                _ => None,
            }
        } else {
            None
        }
    }
}

/// The function an attribute value describes: a map of known settings.
pub open spec fn lambda_from_attr(a: AttrV) -> Option<LambdaV> {
    match a {
        AttrV::Table(m) => lambda_apply(m, 0, lambda_default()),
        _ => None,
    }
}

proof fn lemma_pairs_assoc_at(m: Seq<(String, String)>, k: String, v: String, i: int)
    requires
        0 <= i <= m.len(),
        forall|j: int| 0 <= j < i ==> m[j].0@ != k@,
        i < m.len() ==> m[i].0@ == k@,
    ensures
        i < m.len() ==> crate::attributes::assoc_put(pairs_view(m), k@, v@) == pairs_view(
            m.update(i, (k, v)),
        ),
        i == m.len() ==> crate::attributes::assoc_put(pairs_view(m), k@, v@) == pairs_view(
            m.push((k, v)),
        ),
    decreases i,
{
    let pm = pairs_view(m);
    if i > 0 {
        let rest = m.subrange(1, m.len() as int);
        lemma_pairs_assoc_at(rest, k, v, i - 1);
        assert(pm.subrange(1, pm.len() as int) =~= pairs_view(rest));
        if i < m.len() {
            assert(pairs_view(m.update(i, (k, v))) =~= seq![pm[0]] + pairs_view(
                rest.update(i - 1, (k, v)),
            ));
        } else {
            assert(pairs_view(m.push((k, v))) =~= seq![pm[0]] + pairs_view(rest.push((k, v))));
        }
    } else if m.len() == 0 {
        assert(pairs_view(m.push((k, v))) =~= seq![(k@, v@)]);
    } else {
        assert(pairs_view(m.update(0, (k, v))) =~= pm.update(0, (k@, v@)));
    }
}

/// Binds `k` to `v` in a string map held as a list of pairs.
fn str_map_insert(m: &mut Vec<(String, String)>, k: String, v: String)
    ensures
        pairs_view(final(m)@) == crate::attributes::assoc_put(pairs_view(old(m)@), k@, v@),
{
    let n = m.len();
    let mut i: usize = 0;
    let mut found = false;
    while i < n && !found
        invariant
            n == m@.len(),
            0 <= i <= n,
            forall|j: int| 0 <= j < i ==> m@[j].0@ != k@,
            found ==> i < n && m@[i as int].0@ == k@,
        decreases n - i + (if found { 0int } else { 1int }),
    {
        if str_eq(m[i].0.as_str(), k.as_str()) {
            found = true;
        } else {
            i = i + 1;
        }
    }
    proof {
        lemma_pairs_assoc_at(m@, k, v, i as int);
    }
    if i < n {
        m.set(i, (k, v));
    } else {
        m.push((k, v));
    }
}

/// Adds the string settings of a map to a string map.
fn add_str_entries(e: &Vec<(String, AttributeValue)>, out: &mut Vec<(String, String)>) -> (r: Result<
    (),
    ResourceError,
>)
    ensures
        match str_entries_into(entries_view(e@), pairs_view(old(out)@)) {
            Some(p) => r is Ok && pairs_view(final(out)@) == p,
            None => r is Err,
        },
{
    proof {
        lemma_entries_view_facts(e@);
    }
    let ghost ev = entries_view(e@);
    let n = e.len();
    let mut i: usize = 0;
    assert(ev.subrange(0, n as int) =~= ev);
    while i < n
        invariant
            n == e@.len(),
            ev == entries_view(e@),
            ev.len() == n,
            forall|j: int| 0 <= j < n ==> #[trigger] ev[j] == (e@[j].0@, attr_view(e@[j].1)),
            0 <= i <= n,
            str_entries_into(ev, pairs_view(old(out)@)) == str_entries_into(
                ev.subrange(i as int, n as int),
                pairs_view(out@),
            ),
        decreases n - i,
    {
        let ghost rest = ev.subrange(i as int, n as int);
        assert(rest[0] == ev[i as int]);
        assert(rest.subrange(1, rest.len() as int) =~= ev.subrange(i + 1, n as int));
        let v = match take_str(&e[i].1, e[i].0.as_str()) {
            Ok(v) => v,
            Err(err) => {
                return Err(err);
            },
        };
        str_map_insert(out, e[i].0.clone(), v);
        i = i + 1;
    }
    Ok(())
}

proof fn lemma_triggers_prefix_fail(s: Seq<AttrV>, k: int)
    requires
        0 < k <= s.len(),
        triggers_of(s.subrange(0, k)) is None,
    ensures
        triggers_of(s) is None,
    decreases s.len() - k,
{
    if k < s.len() {
        assert(s.subrange(0, k + 1).drop_last() =~= s.subrange(0, k));
        lemma_triggers_prefix_fail(s, k + 1);
    } else {
        assert(s.subrange(0, k) =~= s);
    }
}

proof fn lemma_policies_prefix_fail(s: Seq<AttrV>, k: int)
    requires
        0 < k <= s.len(),
        policies_of(s.subrange(0, k)) is None,
    ensures
        policies_of(s) is None,
    decreases s.len() - k,
{
    if k < s.len() {
        assert(s.subrange(0, k + 1).drop_last() =~= s.subrange(0, k));
        lemma_policies_prefix_fail(s, k + 1);
    } else {
        assert(s.subrange(0, k) =~= s);
    }
}

pub open spec fn triggers_view(v: Seq<LambdaTrigger>) -> Seq<TriggerV> {
    Seq::new(v.len(), |i: int| trigger_view(v[i]))
}

pub open spec fn policies_view(v: Seq<PolicyStatement>) -> Seq<PolicyV> {
    Seq::new(v.len(), |i: int| policy_view(v[i]))
}

fn take_triggers(v: Vec<AttributeValue>, out: &mut Vec<LambdaTrigger>) -> (r: Result<
    (),
    ResourceError,
>)
    ensures
        match triggers_of(attrs_view(v@)) {
            Some(t) => r is Ok && triggers_view(final(out)@) == triggers_view(old(out)@) + t,
            None => r is Err,
        },
{
    proof {
        lemma_attrs_view_facts(v@);
    }
    let ghost sv = attrs_view(v@);
    let ghost start = triggers_view(out@);
    let mut rest = v;
    let ghost n = sv.len();
    let ghost mut i: int = 0;
    assert(triggers_view(out@) =~= start + Seq::<TriggerV>::empty());
    while rest.len() > 0
        invariant
            sv == attrs_view(v@),
            sv.len() == n,
            0 <= i <= n,
            rest@.len() == n - i,
            forall|j: int| 0 <= j < n - i ==> #[trigger] attr_view(rest@[j]) == sv[i + j],
            triggers_of(sv.subrange(0, i)) matches Some(t) && triggers_view(out@) == start + t,
        decreases rest@.len(),
    {
        let item = rest.remove(0);
        assert(attr_view(item) == sv[i]);
        let ghost pre = sv.subrange(0, i + 1);
        assert(pre.drop_last() =~= sv.subrange(0, i));
        let t = match LambdaTrigger::try_from_attribute(item) {
            Ok(t) => t,
            Err(e) => {
                proof {
                    lemma_triggers_prefix_fail(sv, i + 1);
                }
                return Err(e);
            },
        };
        let ghost before = out@;
        out.push(t);
        assert(triggers_view(out@) =~= triggers_view(before).push(trigger_view(t)));
        proof {
            i = i + 1;
        }
    }
    assert(sv.subrange(0, n as int) =~= sv);
    Ok(())
}

fn take_policies(v: Vec<AttributeValue>, out: &mut Vec<PolicyStatement>) -> (r: Result<
    (),
    ResourceError,
>)
    ensures
        match policies_of(attrs_view(v@)) {
            Some(p) => r is Ok && policies_view(final(out)@) == policies_view(old(out)@) + p,
            None => r is Err,
        },
{
    proof {
        lemma_attrs_view_facts(v@);
    }
    let ghost sv = attrs_view(v@);
    let ghost start = policies_view(out@);
    let mut rest = v;
    let ghost n = sv.len();
    let ghost mut i: int = 0;
    assert(policies_view(out@) =~= start + Seq::<PolicyV>::empty());
    while rest.len() > 0
        invariant
            sv == attrs_view(v@),
            sv.len() == n,
            0 <= i <= n,
            rest@.len() == n - i,
            forall|j: int| 0 <= j < n - i ==> #[trigger] attr_view(rest@[j]) == sv[i + j],
            policies_of(sv.subrange(0, i)) matches Some(p) && policies_view(out@) == start + p,
        decreases rest@.len(),
    {
        let item = rest.remove(0);
        assert(attr_view(item) == sv[i]);
        let ghost pre = sv.subrange(0, i + 1);
        assert(pre.drop_last() =~= sv.subrange(0, i));
        let map = match item {
            AttributeValue::Table(m) => m,
            _ => {
                proof {
                    lemma_policies_prefix_fail(sv, i + 1);
                }
                return Err(ResourceError::ExpectedMap(to_string("policy_statements")));
            },
        };
        let p = match PolicyStatement::try_from_attribute_map(map) {
            Ok(p) => p,
            Err(e) => {
                proof {
                    lemma_policies_prefix_fail(sv, i + 1);
                }
                return Err(e);
            },
        };
        let ghost before = out@;
        out.push(p);
        assert(policies_view(out@) =~= policies_view(before).push(policy_view(p)));
        proof {
            i = i + 1;
        }
    }
    assert(sv.subrange(0, n as int) =~= sv);
    Ok(())
}

impl LambdaFunction {
    /// 128 MB, 30 s, no variables, tags, description, policy statements or triggers.
    pub fn default() -> (r: LambdaFunction)
        ensures
            lambda_view(r) == lambda_default(),
    {
        proof {
            reveal_strlit("");
        }
        let r = LambdaFunction {
            memory: to_string("128"),
            timeout: to_string("30"),
            environment_variables: Vec::new(),
            tags: Vec::new(),
            description: String::new(),
            policy_statements: Vec::new(),
            triggers: Vec::new(),
        };
        assert(lambda_view(r).policy_statements =~= Seq::<PolicyV>::empty());
        assert(lambda_view(r).triggers =~= Seq::<TriggerV>::empty());
        assert(lambda_view(r).environment_variables =~= Seq::<(Seq<char>, Seq<char>)>::empty());
        assert(lambda_view(r).tags =~= Seq::<(Seq<char>, Seq<char>)>::empty());
        r
    }

    /// The function that an attribute value describes.
    pub fn from_attribute(value: AttributeValue) -> (r: Result<LambdaFunction, ResourceError>)
        ensures
            match lambda_from_attr(attr_view(value)) {
                Some(f) => r matches Ok(o) && lambda_view(o) == f,
                None => r is Err,
            },
    {
        let ghost av = attr_view(value);
        let m = match value {
            AttributeValue::Table(m) => m,
            _ => {
                return Err(ResourceError::ExpectedMap(to_string("lambda function")));
            },
        };
        proof {
            lemma_entries_view_facts(m@);
        }
        let ghost mv = entries_view(m@);
        let mut out = LambdaFunction::default();
        let mut rest = m;
        let ghost n = mv.len();
        let ghost mut i: int = 0;
        while rest.len() > 0
            invariant
                av == attr_view(value),
                av == AttrV::Table(mv),
                mv.len() == n,
                0 <= i <= n,
                rest@.len() == n - i,
                forall|j: int|
                    0 <= j < n - i ==> (#[trigger] rest@[j]).0@ == mv[i + j].0 && attr_view(
                        rest@[j].1,
                    ) == mv[i + j].1,
                lambda_apply(mv, 0, lambda_default()) == lambda_apply(mv, i, lambda_view(out)),
            decreases rest@.len(),
        {
            let (key, val) = rest.remove(0);
            assert((key@, attr_view(val)) == mv[i]);
            if str_eq(key.as_str(), "memory") {
                out.memory = match take_str(&val, "memory") {
                    Ok(s) => s,
                    Err(e) => {
                        return Err(e);
                    },
                };
            } else if str_eq(key.as_str(), "timeout") {
                out.timeout = match take_str(&val, "timeout") {
                    Ok(s) => s,
                    Err(e) => {
                        return Err(e);
                    },
                };
            } else if str_eq(key.as_str(), "description") {
                out.description = match take_str(&val, "description") {
                    Ok(s) => s,
                    Err(e) => {
                        return Err(e);
                    },
                };
            } else if str_eq(key.as_str(), "triggers") {
                let l = match val {
                    AttributeValue::List(l) => l,
                    _ => {
                        return Err(ResourceError::ExpectedList(to_string("triggers")));
                    },
                };
                match take_triggers(l, &mut out.triggers) {
                    Ok(()) => {},
                    Err(e) => {
                        return Err(e);
                    },
                }
            } else if str_eq(key.as_str(), "policy_statements") {
                let l = match val {
                    AttributeValue::List(l) => l,
                    _ => {
                        return Err(ResourceError::ExpectedList(to_string("policy_statements")));
                    },
                };
                match take_policies(l, &mut out.policy_statements) {
                    Ok(()) => {},
                    Err(e) => {
                        return Err(e);
                    },
                }
            } else if str_eq(key.as_str(), "environment_variables") {
                let e = match &val {
                    AttributeValue::Table(e) => e,
                    _ => {
                        return Err(ResourceError::ExpectedMap(to_string("environment_variables")));
                    },
                };
                match add_str_entries(e, &mut out.environment_variables) {
                    Ok(()) => {},
                    Err(err) => {
                        return Err(err);
                    },
                }
            } else if str_eq(key.as_str(), "tags") {
                let e = match &val {
                    AttributeValue::Table(e) => e,
                    _ => {
                        return Err(ResourceError::ExpectedMap(to_string("tags")));
                    },
                };
                match add_str_entries(e, &mut out.tags) {
                    Ok(()) => {},
                    Err(err) => {
                        return Err(err);
                    },
                }
            } else {
                return Err(ResourceError::UnexpectedKey(key));
            }
            proof {
                i = i + 1;
            }
        }
        Ok(out)
    }
}

} // verus!
