use vstd::prelude::*;
use vstd::string::*;

use crate::level0::{nested_put, L0Core};
use crate::text::{concat3, remove_char, to_string, without_char};

verus! {

/// The settings of a certificate, validated by DNS, for a domain hosted in the account.
pub struct Input {
    /// the fully qualified domain; at most one wildcard, as its first component
    pub domain_name: String,
}

impl Default for Input {
    fn default() -> (r: Input)
        ensures
            r.domain_name@.len() == 0,
    {
        Input { domain_name: String::new() }
    }
}

/// The certificate to make: its logical name and its domain.
pub struct CertPlan {
    pub logical_cert_name: String,
    pub domain_name: String,
}

/// How many times `c` occurs in `s`.
pub open spec fn count_char(s: Seq<char>, c: char) -> nat
    decreases s.len(),
{
    if s.len() == 0 {
        0
    } else {
        count_char(s.drop_last(), c) + if s.last() == c {
            1nat
        } else {
            0nat
        }
    }
}

/// Why a domain cannot get a certificate, if it cannot.
pub open spec fn domain_error(d: Seq<char>) -> Option<Seq<char>> {
    if d.len() == 0 {
        Some("Must provide a domain name"@)
    } else if count_char(d, '*') > 1 {
        Some("Must only provide 1 wildcard. "@ + d + " is invalid."@)
    } else if count_char(d, '*') == 1 && d[0] != '*' {
        Some(
            "If using a wildcard, it must be the first component of your domain, eg: \"*.something.com\". "@
                + d + " is invalid."@,
        )
    } else {
        None
    }
}

fn count_stars(s: &str) -> (r: usize)
    ensures
        r == count_char(s@, '*'),
{
    let n = s.unicode_len();
    let mut count: usize = 0;
    let mut i: usize = 0;
    while i < n
        invariant
            n == s@.len(),
            i <= n,
            count == count_char(s@.subrange(0, i as int), '*'),
            count <= i,
        decreases n - i,
    {
        assert(s@.subrange(0, i + 1).drop_last() =~= s@.subrange(0, i as int));
        if s.get_char(i) == '*' {
            count = count + 1;
        }
        i = i + 1;
    }
    assert(s@.subrange(0, n as int) =~= s@);
    count
}

/// Checks the domain and plans its certificate `hiragencert<module>` (without underscores),
/// whose logical name is set as the module's `LOGICAL_CERT_NAME` output. A domain that
/// cannot get one is reported as the compiler error.
pub fn config(self_input: &mut Input, l0core: &mut L0Core) -> (r: Option<CertPlan>)
    requires
        old(l0core).wf(),
    ensures
        *final(self_input) == *old(self_input),
        final(l0core).wf(),
        ({
            let d = old(self_input).domain_name@;
            match domain_error(d) {
                Some(msg) => {
                    &&& r is None
                    &&& final(l0core).outputs() == old(l0core).outputs()
                    &&& final(l0core).compiler_error_message@ == (if old(
                        l0core,
                    ).compiler_error_message@.len() == 0 {
                        msg
                    } else {
                        old(l0core).compiler_error_message@
                    })
                },
                None => {
                    let name = without_char("hiragencert"@ + old(l0core).lvl3_module_name@, '_');
                    &&& r matches Some(p) && p.logical_cert_name@ == name && p.domain_name@ == d
                    &&& final(l0core).same_names(old(l0core))
                    &&& final(l0core).outputs() == nested_put(
                        old(l0core).outputs(),
                        old(l0core).current_module_name@,
                        "LOGICAL_CERT_NAME"@,
                        name,
                    )
                },
            }
        }),
{
    let d = self_input.domain_name.as_str();
    if d.unicode_len() == 0 {
        l0core.compiler_error("Must provide a domain name");
        return None;
    }
    let stars = count_stars(d);
    if stars > 1 {
        let msg = concat3("Must only provide 1 wildcard. ", d, " is invalid.");
        l0core.compiler_error(msg.as_str());
        return None;
    }
    if stars == 1 && d.get_char(0) != '*' {
        let msg = concat3(
            "If using a wildcard, it must be the first component of your domain, eg: \"*.something.com\". ",
            d,
            " is invalid.",
        );
        l0core.compiler_error(msg.as_str());
        return None;
    }
    let user_mod_name = l0core.users_module_name();
    let name = concat3("hiragencert", user_mod_name.as_str(), "");
    let logical_cert_name = remove_char(name.as_str(), '_');
    l0core.set_output("LOGICAL_CERT_NAME", logical_cert_name.as_str());
    proof {
        reveal_strlit("");
        assert("hiragencert"@ + user_mod_name@ + ""@ =~= "hiragencert"@ + user_mod_name@);
    }
    Some(CertPlan { logical_cert_name, domain_name: self_input.domain_name.clone() })
}

} // verus!
