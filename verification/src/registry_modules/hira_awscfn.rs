use vstd::prelude::*;
use vstd::string::*;

use crate::level0::EntryV;
use crate::registry_modules::commands::{
    deploy_cmd_text, deploy_cmd_text_string, param_type_text, param_type_text_string,
};
use crate::registry_modules::{after_entry, plain_entry, unique_entry, LibraryObj};
use crate::text::to_string;

verus! {

pub const CFN_FILE: &'static str = "deploy.yml";

pub const DEPLOY_FILE: &'static str = "deploy.sh";

pub const STEP_DEPLOY: &'static str = "# 3. deploy:";

pub open spec fn pairs_view(v: Seq<(String, String)>) -> Seq<(Seq<char>, Seq<char>)> {
    Seq::new(v.len(), |i: int| (v[i].0@, v[i].1@))
}

/// The parameter overrides of the deploy command: `name=value ` for each parameter.
pub open spec fn overrides_text(params: Seq<(Seq<char>, Seq<char>)>) -> Seq<char>
    decreases params.len(),
{
    if params.len() == 0 {
        Seq::empty()
    } else {
        overrides_text(params.drop_last()) + params.last().0 + "="@ + params.last().1 + " "@
    }
}

/// A declaration line for each parameter.
pub open spec fn param_entries(params: Seq<(Seq<char>, Seq<char>)>) -> Seq<EntryV>
    decreases params.len(),
{
    if params.len() == 0 {
        Seq::empty()
    } else {
        param_entries(params.drop_last()).push(
            plain_entry("deploy.yml"@, "# 1"@, param_type_text(params.last().0)),
        )
    }
}

/// The lines for the deploy script and template of a set of resources: the deploy command
/// with its parameter overrides, the template head, the parameters and the resources.
pub open spec fn cfn_file_entries(
    region: Seq<char>,
    params: Seq<(Seq<char>, Seq<char>)>,
    resources: Seq<char>,
) -> Seq<EntryV> {
    seq![
        after_entry("deploy.sh"@, "# 3. deploy:"@, deploy_cmd_text(region), overrides_text(params)),
        unique_entry("deploy.yml"@, "# 0"@, "AWSTemplateFormatVersion: '2010-09-09'"@),
        unique_entry("deploy.yml"@, "# 0"@, "Parameters:"@),
        unique_entry("deploy.yml"@, "# 1"@, "    DefaultParam:\n        Type: String"@),
    ] + param_entries(params) + seq![
        unique_entry("deploy.yml"@, "# 2"@, "Resources:"@),
        plain_entry("deploy.yml"@, "# 3"@, resources),
    ]
}

/// Asks for the deploy command and the template lines of `cfn_resources` in the region, with
/// the given template parameters and their values.
pub fn output_cfn_file(
    obj: &mut LibraryObj,
    region: &str,
    parameters: &[(String, String)],
    cfn_resources: String,
)
    ensures
        final(obj).entries() == old(obj).entries() + cfn_file_entries(
            region@,
            pairs_view(parameters@),
            cfn_resources@,
        ),
        final(obj).compiler_error_message@ == old(obj).compiler_error_message@,
        final(obj).add_code_after@ == old(obj).add_code_after@,
        final(obj).user_data == old(obj).user_data,
{
    let ghost pv = pairs_view(parameters@);
    let deploycfncmd = deploy_cmd_text_string(region);
    let mut out_param_str = String::new();
    let n = parameters.len();
    let mut i: usize = 0;
    assert(pv.subrange(0, 0) =~= Seq::<(Seq<char>, Seq<char>)>::empty());
    while i < n
        invariant
            n == parameters@.len(),
            pv == pairs_view(parameters@),
            i <= n,
            out_param_str@ == overrides_text(pv.subrange(0, i as int)),
        decreases n - i,
    {
        out_param_str.append(parameters[i].0.as_str());
        out_param_str.append("=");
        out_param_str.append(parameters[i].1.as_str());
        out_param_str.append(" ");
        proof {
            let upto = pv.subrange(0, i + 1);
            assert(upto.drop_last() =~= pv.subrange(0, i as int));
            assert(upto.last() == pv[i as int]);
        }
        i = i + 1;
    }
    assert(pv.subrange(0, n as int) =~= pv);
    let ghost start = obj.entries();
    obj.append_to_line(DEPLOY_FILE, STEP_DEPLOY, deploycfncmd, out_param_str);
    obj.append_to_file_unique(CFN_FILE, "# 0", to_string("AWSTemplateFormatVersion: '2010-09-09'"));
    obj.append_to_file_unique(CFN_FILE, "# 0", to_string("Parameters:"));
    obj.append_to_file_unique(CFN_FILE, "# 1", to_string("    DefaultParam:\n        Type: String"));
    let ghost head = obj.entries();
    let mut j: usize = 0;
    assert(pv.subrange(0, 0) =~= Seq::<(Seq<char>, Seq<char>)>::empty());
    assert(head + param_entries(pv.subrange(0, 0)) =~= head);
    while j < n
        invariant
            n == parameters@.len(),
            pv == pairs_view(parameters@),
            j <= n,
            obj.entries() == head + param_entries(pv.subrange(0, j as int)),
            obj.compiler_error_message@ == old(obj).compiler_error_message@,
            obj.add_code_after@ == old(obj).add_code_after@,
            obj.user_data == old(obj).user_data,
        decreases n - j,
    {
        let line = param_type_text_string(parameters[j].0.as_str());
        obj.append_to_file(CFN_FILE, "# 1", line);
        proof {
            let upto = pv.subrange(0, j + 1);
            assert(upto.drop_last() =~= pv.subrange(0, j as int));
            assert(upto.last() == pv[j as int]);
        }
        j = j + 1;
    }
    obj.append_to_file_unique(CFN_FILE, "# 2", to_string("Resources:"));
    obj.append_to_file(CFN_FILE, "# 3", cfn_resources);
    proof {
        reveal_strlit("deploy.yml");
        reveal_strlit("deploy.sh");
        reveal_strlit("# 3. deploy:");
        assert(obj.entries() =~= start + cfn_file_entries(region@, pv, cfn_resources@));
    }
}

/// The settings of this module, which has none.
pub struct NotUsed {}

/// This module does nothing when applied: it only offers `output_cfn_file`.
pub fn wasm_entrypoint(_obj: &mut LibraryObj, _cb: impl FnOnce(&mut NotUsed))
    ensures
        *final(_obj) == *old(_obj),
{
}

} // verus!
