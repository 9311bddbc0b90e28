use vstd::prelude::*;
use vstd::string::*;

use crate::cfn_text::registry_bucket_text;
use crate::level0::EntryV;
use crate::registry::{
    adler32_checksum, replace_char, bucket_name_problems, bucket_name_with_hash, region_problems,
    resource_name_problems, S3Input,
};
use crate::registry_modules::commands::{deploy_cmd_text, deploy_cmd_text_string};
use crate::registry_modules::{after_entry, plain_entry, unique_entry, user_data_name, with_error, LibraryObj, UserData};
use crate::text::{str_eq, strings_view, to_string, without_char};

verus! {

/// The lines asked for a valid bucket: the deploy command with no overrides, the template
/// head and the bucket.
pub open spec fn bucket_entries(region: Seq<char>, resources: Seq<char>) -> Seq<EntryV> {
    seq![
        after_entry("deploy.sh"@, "# 3. deploy:"@, deploy_cmd_text(region), Seq::empty()),
        unique_entry("deploy.yml"@, "# 0"@, "AWSTemplateFormatVersion: '2010-09-09'"@),
        unique_entry("deploy.yml"@, "# 0"@, "Parameters:"@),
        unique_entry("deploy.yml"@, "# 1"@, "    DefaultParam:\n        Type: String"@),
        unique_entry("deploy.yml"@, "# 2"@, "Resources:"@),
        plain_entry("deploy.yml"@, "# 3"@, resources),
    ]
}

/// The compiler error after each problem is reported in turn.
pub open spec fn with_errors(current: Seq<char>, problems: Seq<Seq<char>>) -> Seq<char>
    decreases problems.len(),
{
    if problems.len() == 0 {
        current
    } else {
        with_error(with_errors(current, problems.drop_last()), problems.last())
    }
}

/// The bucket name the checks see: the name is hashed again unless the settings changed it.
pub open spec fn final_bucket_name(s: S3Input, bucket_name_before: Seq<char>) -> Seq<char> {
    if bucket_name_before == s.bucket_name@ {
        bucket_name_with_hash(
            s.bucket_name@,
            s.mod_name_original@,
            s.hash_suffix_length as nat,
            adler32_checksum(vstd::utf8::encode_utf8(s.mod_name_original@)),
        )
    } else {
        s.bucket_name@
    }
}

/// The problems reported for bucket settings.
pub open spec fn bucket_problems(rn: Seq<char>, region: Seq<char>, bucket: Seq<char>) -> Seq<
    Seq<char>,
> {
    resource_name_problems(rn) + region_problems(region) + bucket_name_problems(bucket)
}

/// The template text of a bucket.
pub open spec fn bucket_cfn_text(rn: Seq<char>, bucket: Seq<char>) -> Seq<char> {
    registry_bucket_text(
        rn,
        if bucket.len() == 0 {
            "# BucketName will be auto-generated"@
        } else {
            "BucketName: "@ + bucket
        },
    )
}

/// The default settings of the bucket of the module `mod_name` (see `S3Input::new`).
pub open spec fn s3_defaults(mod_name: Seq<char>, r: S3Input) -> bool {
    &&& r.mod_name_original@ == replace_char(mod_name, '_', '-')
    &&& r.resource_name@ == without_char("S3"@ + r.mod_name_original@, '-')
    &&& r.hash_suffix_length == 8
    &&& r.region@ == "us-west-2"@
    &&& r.bucket_name@ == bucket_name_with_hash(
        r.mod_name_original@,
        r.mod_name_original@,
        8,
        adler32_checksum(vstd::utf8::encode_utf8(r.mod_name_original@)),
    )
}

/// What finishing the settings `s3input` (whose bucket name was `bucket_name_before` before
/// the callback) makes of `before`, with the settings `r` given back (see
/// `wasm_entrypoint_with`).
pub open spec fn s3_finished(
    before: LibraryObj,
    after: LibraryObj,
    bucket_name_before: Seq<char>,
    s3input: S3Input,
    r: S3Input,
) -> bool {
    let b = final_bucket_name(s3input, bucket_name_before);
    let msg = with_errors(
        before.compiler_error_message@,
        bucket_problems(s3input.resource_name@, s3input.region@, b),
    );
    &&& after.compiler_error_message@ == msg
    &&& msg.len() > 0 ==> after.entries() == before.entries() && r.bucket_name@.len() == 0
        && r.resource_name@.len() == 0 && r.region@.len() == 0 && r.hash_suffix_length == 0
    &&& msg.len() == 0 ==> after.entries() == before.entries() + bucket_entries(
        s3input.region@,
        bucket_cfn_text(s3input.resource_name@, b),
    ) && r.bucket_name@ == b && r.resource_name@ == s3input.resource_name@ && r.region@
        == s3input.region@ && r.mod_name_original@ == s3input.mod_name_original@
        && r.hash_suffix_length == s3input.hash_suffix_length
    &&& after.add_code_after@ == before.add_code_after@
    &&& after.user_data == before.user_data
}

/// Once finishing a bucket's settings raises the first error, no deploy script or template
/// line and no code is added.
pub proof fn law_s3_error_emits_nothing(
    before: LibraryObj,
    after: LibraryObj,
    bucket_name_before: Seq<char>,
    s3input: S3Input,
    r: S3Input,
)
    requires
        s3_finished(before, after, bucket_name_before, s3input, r),
        before.compiler_error_message@.len() == 0,
        after.compiler_error_message@.len() > 0,
    ensures
        after.entries() == before.entries(),
        after.add_code_after@ == before.add_code_after@,
{
}

/// Applied to a module: makes the default bucket settings for it and lets `cb` change them,
/// then finishes with `wasm_entrypoint_with`. Another item is refused with an error and
/// default settings.
pub fn wasm_entrypoint(obj: &mut LibraryObj, cb: impl FnOnce(&mut S3Input)) -> (r: S3Input)
    requires
        forall|q: &mut S3Input| cb.requires((q,)),
    ensures
        !(old(obj).user_data is Module) ==> final(obj).compiler_error_message@ == with_error(
            old(obj).compiler_error_message@,
            "this module can only be used on mod definitions"@,
        ) && final(obj).entries() == old(obj).entries() && final(obj).add_code_after@
            == old(obj).add_code_after@ && r.bucket_name@.len() == 0 && r.resource_name@.len() == 0,
        old(obj).user_data is Module ==> exists|q: &mut S3Input|
            {
                &&& s3_defaults(user_data_name(old(obj).user_data), *q)
                &&& #[trigger] cb.ensures((q,), ())
                &&& s3_finished(*old(obj), *final(obj), q.bucket_name@, *final(q), r)
            },
{
    let mod_name = match &obj.user_data {
        UserData::Module { name, .. } => name.clone(),
        _ => {
            obj.compiler_error("this module can only be used on mod definitions");
            return S3Input::default();
        },
    };
    let mut s3input = S3Input::new(mod_name.as_str());
    let bucket_name_before = s3input.bucket_name.clone();
    let q = &mut s3input;
    cb(q);
    wasm_entrypoint_with(obj, bucket_name_before.as_str(), s3input)
}

/// Finishes bucket settings: the bucket name is hashed again unless the settings changed
/// it; every problem is reported (the first is kept). When a compiler error stands, the
/// result is the default settings and nothing is asked for; otherwise the deploy command
/// and the bucket's template lines are asked for, and the settings are given back.
pub fn wasm_entrypoint_with(obj: &mut LibraryObj, bucket_name_before: &str, s3input: S3Input) -> (r:
    S3Input)
    ensures
        ({
            let b = final_bucket_name(s3input, bucket_name_before@);
            let msg = with_errors(
                old(obj).compiler_error_message@,
                bucket_problems(s3input.resource_name@, s3input.region@, b),
            );
            &&& final(obj).compiler_error_message@ == msg
            &&& msg.len() > 0 ==> final(obj).entries() == old(obj).entries()
                && r.bucket_name@.len() == 0 && r.resource_name@.len() == 0
                && r.region@.len() == 0 && r.hash_suffix_length == 0
            &&& msg.len() == 0 ==> final(obj).entries() == old(obj).entries() + bucket_entries(
                s3input.region@,
                bucket_cfn_text(s3input.resource_name@, b),
            ) && r.bucket_name@ == b && r.resource_name@ == s3input.resource_name@
                && r.region@ == s3input.region@ && r.mod_name_original@
                == s3input.mod_name_original@ && r.hash_suffix_length
                == s3input.hash_suffix_length
        }),
        final(obj).add_code_after@ == old(obj).add_code_after@,
        final(obj).user_data == old(obj).user_data,
{
    let mut s3input = s3input;
    if str_eq(bucket_name_before, s3input.bucket_name.as_str()) {
        s3input.apply_hash_to_bucket_name();
    }
    let problems = s3input.is_valid();
    let ghost ps = strings_view(problems@);
    let n = problems.len();
    let mut i: usize = 0;
    let ghost start = obj.compiler_error_message@;
    assert(ps.subrange(0, 0) =~= Seq::<Seq<char>>::empty());
    while i < n
        invariant
            n == problems@.len(),
            ps == strings_view(problems@),
            i <= n,
            obj.compiler_error_message@ == with_errors(start, ps.subrange(0, i as int)),
            obj.entries() == old(obj).entries(),
            obj.add_code_after@ == old(obj).add_code_after@,
            obj.user_data == old(obj).user_data,
        decreases n - i,
    {
        obj.compiler_error(problems[i].as_str());
        proof {
            let q = ps.subrange(0, i + 1);
            assert(q.last() == ps[i as int]);
            assert(q.drop_last() =~= ps.subrange(0, i as int));
        }
        i = i + 1;
    }
    assert(ps.subrange(0, n as int) =~= ps);
    if obj.compiler_error_message.as_str().unicode_len() != 0 {
        return S3Input::default();
    }
    let cfn_resources = s3input.output_cfn();
    let deploycfncmd = deploy_cmd_text_string(s3input.region.as_str());
    let ghost e0 = obj.entries();
    obj.append_to_line("deploy.sh", "# 3. deploy:", deploycfncmd, String::new());
    obj.append_to_file_unique("deploy.yml", "# 0", to_string("AWSTemplateFormatVersion: '2010-09-09'"));
    obj.append_to_file_unique("deploy.yml", "# 0", to_string("Parameters:"));
    obj.append_to_file_unique("deploy.yml", "# 1", to_string("    DefaultParam:\n        Type: String"));
    obj.append_to_file_unique("deploy.yml", "# 2", to_string("Resources:"));
    obj.append_to_file("deploy.yml", "# 3", cfn_resources);
    assert(obj.entries() =~= e0 + bucket_entries(
        s3input.region@,
        bucket_cfn_text(s3input.resource_name@, s3input.bucket_name@),
    ));
    s3input
}

} // verus!
