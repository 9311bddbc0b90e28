use vstd::prelude::*;
use vstd::string::*;

use crate::level0::L0Core;
use crate::level2::aws_cloudfront_distribution::{
    clone_settings, domain_view, opt_settings_view, select_function_url, CustomDomainSettings,
    DomainV, ExtraOrigin, OriginProtocolPolicy,
};
use crate::text::{concat3, decimal, push_decimal, str_eq, to_string};

verus! {

/// One origin of a distribution of function URLs: the path served by the function URL
/// with the given logical id.
pub struct LambdaApiEndpoint {
    pub path: String,
    pub function_url_id: String,
}

impl Default for LambdaApiEndpoint {
    fn default() -> (r: LambdaApiEndpoint)
        ensures
            r.path@.len() == 0,
            r.function_url_id@.len() == 0,
    {
        LambdaApiEndpoint { path: String::new(), function_url_id: String::new() }
    }
}

/// The settings of a distribution of function URLs.
pub struct Input {
    /// the endpoint with path `/` is the default one; no two endpoints share a path
    pub endpoints: Vec<LambdaApiEndpoint>,
    pub custom_domain_settings: Option<CustomDomainSettings>,
}

pub open spec fn endpoints_view(v: Seq<LambdaApiEndpoint>) -> Seq<(Seq<char>, Seq<char>)> {
    Seq::new(v.len(), |i: int| (v[i].path@, v[i].function_url_id@))
}

/// The endpoints other than `/`, in order.
pub open spec fn other_endpoints(e: Seq<(Seq<char>, Seq<char>)>) -> Seq<(Seq<char>, Seq<char>)>
    decreases e.len(),
{
    if e.len() == 0 {
        Seq::empty()
    } else if e.last().0 == "/"@ {
        other_endpoints(e.drop_last())
    } else {
        other_endpoints(e.drop_last()).push(e.last())
    }
}

/// Whether one of the endpoints has the path.
pub open spec fn has_path(o: Seq<(Seq<char>, Seq<char>)>, p: Seq<char>) -> bool {
    exists|q: int| 0 <= q < o.len() && o[q].0 == p
}

/// The path of the first endpoint, in order, that repeats the path of an earlier endpoint.
pub open spec fn first_duplicate_path(e: Seq<(Seq<char>, Seq<char>)>) -> Option<Seq<char>>
    decreases e.len(),
{
    if e.len() == 0 {
        None
    } else {
        match first_duplicate_path(e.drop_last()) {
            Some(p) => Some(p),
            None => if has_path(e.drop_last(), e.last().0) {
                Some(e.last().0)
            } else {
                None
            },
        }
    }
}

/// The function URL of the last `/` endpoint.
pub open spec fn default_endpoint(e: Seq<(Seq<char>, Seq<char>)>) -> Option<Seq<char>>
    decreases e.len(),
{
    if e.len() == 0 {
        None
    } else if e.last().0 == "/"@ {
        Some(e.last().1)
    } else {
        default_endpoint(e.drop_last())
    }
}

/// The origin and behavior made for the `i`th other endpoint.
pub open spec fn extra_origin_view(i: nat, e: (Seq<char>, Seq<char>)) -> (
    Seq<char>,
    DomainV,
    OriginProtocolPolicy,
    Seq<char>,
    Seq<char>,
    Seq<char>,
) {
    let id = "extraorigin"@ + decimal(i);
    (id, DomainV::FunctionUrlOf(e.1), OriginProtocolPolicy::HttpsOnly, e.0, id,
        "658327ea-f89d-4fab-a63d-7e88639e58f6"@)
}

pub open spec fn extra_origins_view(v: Seq<ExtraOrigin>) -> Seq<
    (Seq<char>, DomainV, OriginProtocolPolicy, Seq<char>, Seq<char>, Seq<char>),
> {
    Seq::new(
        v.len(),
        |i: int|
            (v[i].id@, domain_view(v[i].domain), v[i].protocol, v[i].path_pattern@,
            v[i].target_origin_id@, v[i].cache_policy_id@),
    )
}

/// Points the distribution at the endpoints: the `/` endpoint is the default origin,
/// reached over HTTPS, and each other endpoint gets an
/// origin `extraorigin0`, `extraorigin1`, ... with the behavior for its path. The endpoints
/// are used up. Two endpoints with one path (`/` too), or no `/` endpoint, are reported as the
/// compiler error and leave the distribution as it was.
#[verifier::loop_isolation(false)]
pub fn config(
    inp: &mut Input,
    distrinput: &mut crate::level2::aws_cloudfront_distribution::Input,
    l0core: &mut L0Core,
)
    ensures
        final(inp).endpoints@.len() == 0,
        final(l0core).module_outputs@ == old(l0core).module_outputs@,
        ({
            let e = endpoints_view(old(inp).endpoints@);
            let o = other_endpoints(e);
            match first_duplicate_path(e) {
                Some(p) => final(l0core).compiler_error_message@ == (if old(
                    l0core,
                ).compiler_error_message@.len() == 0 {
                    "Lambda API distribution received duplicate endpoint path "@ + p
                        + ". All paths in a distribution must be unique"@
                } else {
                    old(l0core).compiler_error_message@
                }) && *final(distrinput) == *old(distrinput),
                None => match default_endpoint(e) {
                    None => final(l0core).compiler_error_message@ == (if old(
                        l0core,
                    ).compiler_error_message@.len() == 0 {
                        "Lambda API distribution missing a default endpoint. Must provide an endpoint where path = '/'"@
                    } else {
                        old(l0core).compiler_error_message@
                    }) && *final(distrinput) == *old(distrinput),
                    Some(d) => {
                        &&& final(l0core).compiler_error_message@ == old(
                            l0core,
                        ).compiler_error_message@
                        &&& domain_view(final(distrinput).default_origin_domain_name)
                            == DomainV::FunctionUrlOf(d)
                        &&& final(distrinput).default_origin_protocol_policy
                            == OriginProtocolPolicy::HttpsOnly
                        &&& opt_settings_view(final(distrinput).custom_domain_settings)
                            == opt_settings_view(old(inp).custom_domain_settings)
                        &&& extra_origins_view(final(distrinput).extra_origins@) == Seq::new(
                            o.len(),
                            |i: int| extra_origin_view(i as nat, o[i]),
                        )
                        &&& final(distrinput).disabled == old(distrinput).disabled
                        &&& final(distrinput).viewer_protocol_policy == old(
                            distrinput,
                        ).viewer_protocol_policy
                    },
                },
            }
        }),
{
    let mut endpoints: Vec<LambdaApiEndpoint> = Vec::new();
    std::mem::swap(&mut endpoints, &mut inp.endpoints);
    let ghost e = endpoints_view(endpoints@);
    let mut default: Option<String> = None;
    let mut others: Vec<(String, String)> = Vec::new();
    let n = endpoints.len();
    let mut i: usize = 0;
    proof {
        reveal_strlit("/");
    }
    while i < n
        invariant
            n == endpoints@.len(),
            e == endpoints_view(endpoints@),
            i <= n,
            endpoints_view_pairs(others@) == other_endpoints(e.subrange(0, i as int)),
            opt_str_view(default) == default_endpoint(e.subrange(0, i as int)),
            first_duplicate_path(e.subrange(0, i as int)) is None,
            *l0core == *old(l0core),
        decreases n - i,
    {
        let ghost upto = e.subrange(0, i + 1);
        proof {
            assert(upto.drop_last() =~= e.subrange(0, i as int));
            assert(upto.last() == e[i as int]);
        }
        let path = endpoints[i].path.clone();
        let url = endpoints[i].function_url_id.clone();
        let mut k: usize = 0;
        while k < i
            invariant
                n == endpoints@.len(),
                e == endpoints_view(endpoints@),
                i < n,
                k <= i,
                forall|q: int| 0 <= q < k ==> e[q].0 != path@,
                *l0core == *old(l0core),
            decreases i - k,
        {
            if str_eq(endpoints[k].path.as_str(), path.as_str()) {
                let msg = concat3(
                    "Lambda API distribution received duplicate endpoint path ",
                    path.as_str(),
                    ". All paths in a distribution must be unique",
                );
                l0core.compiler_error(msg.as_str());
                proof {
                    let pre = e.subrange(0, i as int);
                    assert(pre[k as int].0 == path@);
                    assert(has_path(pre, e[i as int].0));
                    assert(first_duplicate_path(upto) == Some(path@));
                    lemma_first_duplicate_prefix(e, i + 1);
                }
                return ;
            }
            k = k + 1;
        }
        proof {
            let pre = e.subrange(0, i as int);
            assert(!has_path(pre, path@)) by {
                if has_path(pre, path@) {
                    let q = choose|q: int| 0 <= q < pre.len() && pre[q].0 == path@;
                    assert(e[q].0 == path@);
                }
            }
        }
        if str_eq(path.as_str(), "/") {
            default = Some(url);
        } else {
            let ghost before = endpoints_view_pairs(others@);
            others.push((path, url));
            assert(endpoints_view_pairs(others@) =~= before.push(e[i as int]));
        }
        i = i + 1;
    }
    assert(e.subrange(0, n as int) =~= e);
    let default = match default {
        Some(d) => d,
        None => {
            l0core.compiler_error(
                "Lambda API distribution missing a default endpoint. Must provide an endpoint where path = '/'",
            );
            return ;
        },
    };
    distrinput.default_origin_domain_name = select_function_url(default.as_str());
    distrinput.default_origin_protocol_policy = OriginProtocolPolicy::HttpsOnly;
    distrinput.custom_domain_settings = clone_settings(&inp.custom_domain_settings);
    let ghost o = endpoints_view_pairs(others@);
    let mut extra_origins: Vec<ExtraOrigin> = Vec::new();
    let m = others.len();
    let mut k: usize = 0;
    while k < m
        invariant
            m == others@.len(),
            o == endpoints_view_pairs(others@),
            k <= m,
            extra_origins_view(extra_origins@) == Seq::new(
                k as nat,
                |q: int| extra_origin_view(q as nat, o[q]),
            ),
        decreases m - k,
    {
        let mut id = to_string("extraorigin");
        push_decimal(&mut id, k as u64);
        let origin = ExtraOrigin {
            id: id.clone(),
            domain: select_function_url(others[k].1.as_str()),
            protocol: OriginProtocolPolicy::HttpsOnly,
            path_pattern: others[k].0.clone(),
            target_origin_id: id,
            cache_policy_id: to_string("658327ea-f89d-4fab-a63d-7e88639e58f6"),
        };
        let ghost before = extra_origins_view(extra_origins@);
        assert(extra_origins_view(seq![origin])[0] == extra_origin_view(k as nat, o[k as int]));
        extra_origins.push(origin);
        assert(extra_origins_view(extra_origins@) =~= before.push(
            extra_origin_view(k as nat, o[k as int]),
        ));
        assert(extra_origins_view(extra_origins@) =~= Seq::new(
            (k + 1) as nat,
            |q: int| extra_origin_view(q as nat, o[q]),
        ));
        k = k + 1;
    }
    distrinput.extra_origins = extra_origins;
}

pub open spec fn endpoints_view_pairs(v: Seq<(String, String)>) -> Seq<(Seq<char>, Seq<char>)> {
    Seq::new(v.len(), |i: int| (v[i].0@, v[i].1@))
}

pub open spec fn opt_str_view(o: Option<String>) -> Option<Seq<char>> {
    match o {
        Some(s) => Some(s@),
        None => None,
    }
}

/// A repeated path found in a prefix of the endpoints is the one reported for all of them.
proof fn lemma_first_duplicate_prefix(e: Seq<(Seq<char>, Seq<char>)>, j: int)
    requires
        0 <= j <= e.len(),
        first_duplicate_path(e.subrange(0, j)) is Some,
    ensures
        first_duplicate_path(e) == first_duplicate_path(e.subrange(0, j)),
    decreases e.len(),
{
    if j < e.len() {
        assert(e.drop_last().subrange(0, j) =~= e.subrange(0, j));
        lemma_first_duplicate_prefix(e.drop_last(), j);
    } else {
        assert(e.subrange(0, j) =~= e);
    }
}

} // verus!
