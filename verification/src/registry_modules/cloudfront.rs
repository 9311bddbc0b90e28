use vstd::prelude::*;
use vstd::string::*;

use crate::level0::EntryV;
use crate::registry::{arms_view, cloudfront_distributions, distributions_of, group_count, CloudfrontInput};
use crate::registry_modules::commands::{deploy_cmd_text, deploy_cmd_text_string};
use crate::registry_modules::{after_entry, plain_entry, unique_entry, with_error, LibraryObj, UserData};
use crate::text::{strings_view, to_string};

verus! {

/// The message for an item that is not a `match`.
pub open spec fn not_a_match_message() -> Seq<char> {
    "this module can only be used on match statements. Make sure your match statement looks something like\nconst _: _ = match \"something\" { ... };"@
}

/// A template line for each distribution.
pub open spec fn resource_entries(resources: Seq<Seq<char>>) -> Seq<EntryV>
    decreases resources.len(),
{
    if resources.len() == 0 {
        Seq::empty()
    } else {
        resource_entries(resources.drop_last()).push(
            plain_entry("deploy.yml"@, "# 3"@, resources.last()),
        )
    }
}

/// The lines asked for the distributions: the deploy command with no overrides, the
/// template head and one line for each distribution.
pub open spec fn distribution_entries(region: Seq<char>, resources: Seq<Seq<char>>) -> Seq<EntryV> {
    seq![
        after_entry("deploy.sh"@, "# 3. deploy:"@, deploy_cmd_text(region), Seq::empty()),
        unique_entry("deploy.yml"@, "# 0"@, "AWSTemplateFormatVersion: '2010-09-09'"@),
        unique_entry("deploy.yml"@, "# 0"@, "Parameters:"@),
        unique_entry("deploy.yml"@, "# 1"@, "    DefaultParam:\n        Type: String"@),
        unique_entry("deploy.yml"@, "# 2"@, "Resources:"@),
    ] + resource_entries(resources)
}

/// What finishing the settings `input` makes of `before`, with the settings `r` given back
/// (see `wasm_entrypoint_with`).
pub open spec fn cloudfront_finished(
    before: LibraryObj,
    after: LibraryObj,
    input: CloudfrontInput,
    r: CloudfrontInput,
) -> bool {
    let expr = strings_view(before.user_data->Match_expr@);
    let arms = arms_view(before.user_data->Match_arms@);
    &&& match distributions_of(expr, arms, input.acm_arn@) {
        Err(m) => after.compiler_error_message@ == with_error(before.compiler_error_message@, m)
            && after.entries() == before.entries() && r.num_distributions == 0
            && r.acm_arn@.len() == 0 && r.region@.len() == 0,
        Ok(resources) => after.compiler_error_message@ == before.compiler_error_message@
            && after.entries() == before.entries() + distribution_entries(input.region@, resources)
            && r.num_distributions == group_count(expr, arms) && r.acm_arn == input.acm_arn
            && r.region == input.region,
    }
    &&& after.add_code_after@ == before.add_code_after@
    &&& after.user_data == before.user_data
}

/// Once finishing a distribution's settings raises the first error, no deploy script or
/// template line and no code is added.
pub proof fn law_cloudfront_error_emits_nothing(
    before: LibraryObj,
    after: LibraryObj,
    input: CloudfrontInput,
    r: CloudfrontInput,
)
    requires
        cloudfront_finished(before, after, input, r),
        before.compiler_error_message@.len() == 0,
        after.compiler_error_message@.len() > 0,
    ensures
        after.entries() == before.entries(),
        after.add_code_after@ == before.add_code_after@,
{
}

/// Applied to a `match`: makes the default settings and lets `cb` change them, then finishes
/// with `wasm_entrypoint_with`. Another item is refused with an error and default settings.
pub fn wasm_entrypoint(obj: &mut LibraryObj, cb: impl FnOnce(&mut CloudfrontInput)) -> (r:
    CloudfrontInput)
    requires
        forall|q: &mut CloudfrontInput| cb.requires((q,)),
    ensures
        !(old(obj).user_data is Match) ==> final(obj).compiler_error_message@ == with_error(
            old(obj).compiler_error_message@,
            not_a_match_message(),
        ) && final(obj).entries() == old(obj).entries() && final(obj).add_code_after@
            == old(obj).add_code_after@ && r.num_distributions == 0,
        old(obj).user_data is Match ==> exists|q: &mut CloudfrontInput|
            {
                &&& q.num_distributions == 0
                &&& q.acm_arn@.len() == 0
                &&& q.region@ == "us-west-2"@
                &&& #[trigger] cb.ensures((q,), ())
                &&& cloudfront_finished(*old(obj), *final(obj), *final(q), r)
            },
{
    match &obj.user_data {
        UserData::Match { .. } => {},
        _ => {
            obj.compiler_error(
                "this module can only be used on match statements. Make sure your match statement looks something like\nconst _: _ = match \"something\" { ... };",
            );
            return CloudfrontInput::default();
        },
    }
    let mut input = CloudfrontInput::new();
    let q = &mut input;
    cb(q);
    wasm_entrypoint_with(obj, input)
}

/// Makes a distribution for each domain of the `match` arms (see `distributions_of`). A
/// problem is reported and gives the default settings; otherwise the deploy command and
/// each distribution's template lines are asked for, and the settings come back with the
/// number of distributions.
pub fn wasm_entrypoint_with(obj: &mut LibraryObj, input: CloudfrontInput) -> (r: CloudfrontInput)
    requires
        old(obj).user_data is Match,
    ensures
        ({
            let expr = strings_view(old(obj).user_data->Match_expr@);
            let arms = arms_view(old(obj).user_data->Match_arms@);
            match distributions_of(expr, arms, input.acm_arn@) {
                Err(m) => final(obj).compiler_error_message@ == with_error(
                    old(obj).compiler_error_message@,
                    m,
                ) && final(obj).entries() == old(obj).entries() && r.num_distributions == 0
                    && r.acm_arn@.len() == 0 && r.region@.len() == 0,
                Ok(resources) => final(obj).compiler_error_message@
                    == old(obj).compiler_error_message@ && final(obj).entries() == old(
                    obj,
                ).entries() + distribution_entries(input.region@, resources)
                    && r.num_distributions == group_count(expr, arms) && r.acm_arn
                    == input.acm_arn && r.region == input.region,
            }
        }),
        final(obj).add_code_after@ == old(obj).add_code_after@,
        final(obj).user_data == old(obj).user_data,
{
    let mut input = input;
    let result = match &obj.user_data {
        UserData::Match { expr, arms, .. } => cloudfront_distributions(&mut input, expr, arms),
        _ => Err(String::new()),
    };
    let resources = match result {
        Err(m) => {
            obj.compiler_error(m.as_str());
            return CloudfrontInput::default();
        },
        Ok(v) => v,
    };
    let deploycfncmd = deploy_cmd_text_string(input.region.as_str());
    let ghost e0 = obj.entries();
    obj.append_to_line("deploy.sh", "# 3. deploy:", deploycfncmd, String::new());
    obj.append_to_file_unique("deploy.yml", "# 0", to_string("AWSTemplateFormatVersion: '2010-09-09'"));
    obj.append_to_file_unique("deploy.yml", "# 0", to_string("Parameters:"));
    obj.append_to_file_unique("deploy.yml", "# 1", to_string("    DefaultParam:\n        Type: String"));
    obj.append_to_file_unique("deploy.yml", "# 2", to_string("Resources:"));
    let ghost head = obj.entries();
    let ghost rv = strings_view(resources@);
    let n = resources.len();
    let mut i: usize = 0;
    assert(rv.subrange(0, 0) =~= Seq::<Seq<char>>::empty());
    assert(head + resource_entries(rv.subrange(0, 0)) =~= head);
    while i < n
        invariant
            n == resources@.len(),
            rv == strings_view(resources@),
            i <= n,
            obj.entries() == head + resource_entries(rv.subrange(0, i as int)),
            obj.compiler_error_message@ == old(obj).compiler_error_message@,
            obj.add_code_after@ == old(obj).add_code_after@,
            obj.user_data == old(obj).user_data,
        decreases n - i,
    {
        obj.append_to_file("deploy.yml", "# 3", resources[i].clone());
        proof {
            let upto = rv.subrange(0, i + 1);
            assert(upto.drop_last() =~= rv.subrange(0, i as int));
            assert(upto.last() == rv[i as int]);
        }
        i = i + 1;
    }
    assert(rv.subrange(0, n as int) =~= rv);
    assert(obj.entries() =~= e0 + distribution_entries(input.region@, rv));
    input
}

} // verus!
