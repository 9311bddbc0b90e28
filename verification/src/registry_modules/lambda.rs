use vstd::prelude::*;
use vstd::string::*;

use crate::level0::EntryV;
use crate::registry::{can_truncate, truncate_bytes, LambdaInput};
use crate::registry_modules::commands::{
    random_name_cmd_text, random_name_cmd_text_string, create_bucket_cmd_text, create_bucket_cmd_text_string, save_bucket_name_cmd_text, save_bucket_name_cmd_text_string, get_bucket_name_cmd_text, get_bucket_name_cmd_text_string, compile_cmd_text, compile_cmd_text_string, copy_cmd_text, copy_cmd_text_string, md5_cmd_text, md5_cmd_text_string, zip_cmd_text, zip_cmd_text_string, upload_cmd_text, upload_cmd_text_string, deploy_cmd_text, deploy_cmd_text_string, bucket_param_value_text, bucket_param_value_text_string, key_param_value_text, key_param_value_text_string, param_type_text, param_type_text_string,
};
use crate::registry_modules::{
    after_entry, plain_entry, strs_view, unique_entry, user_data_name, with_error, LibraryObj,
    UserData,
};
use crate::text::{
    concat3, ends_with, remove_char, replace_all, replaced, seq_ends_with, seq_starts_with,
    starts_with, to_string, without_char,
};

verus! {

/// The function that runs a user's function as a lambda handler, before names are filled in.
pub open spec fn service_template() -> Seq<char> {
    "#[allow(dead_code)] async fn service_func_name(event: lambda_runtime::LambdaEvent<input_param_type>) -> return_ty { let (x, _context) = event.into_parts(); return_statement }"@
}

/// The entry point of the compiled lambda, before names are filled in.
pub open spec fn main_template() -> Seq<char> {
    "#[cfg(CFG_NAME)] #[tokio::main] async fn main() -> Result<(), lambda_runtime::Error> { let func = lambda_runtime::service_fn(service_func_name); lambda_runtime::run(func).await?; Ok(()) }"@
}

/// What applying the module to a function gives: the code to add after it (the entry point
/// and then the handler) and the lines for the deploy script and template, for the
/// function `name` taking one parameter of type `ty` and returning `rt` (spaces removed).
pub open spec fn lambda_outputs(
    input: LambdaInput,
    name: Seq<char>,
    is_async: bool,
    ty: Seq<char>,
    rt: Seq<char>,
    crate_name: Seq<char>,
) -> (Seq<char>, Seq<char>, Seq<EntryV>) {
    let wrap = !seq_starts_with(rt, "Result<"@);
    let ret_ty = if wrap {
        "Result<"@ + rt + ", lambda_runtime::Error>"@
    } else {
        rt
    };
    let sfn = "service_func_"@ + name;
    let call = if is_async {
        name + "(x).await"@
    } else {
        name + "(x)"@
    };
    let rs = if wrap {
        "Ok("@ + call + ")"@
    } else {
        call
    };
    let service = replaced(
        replaced(
            replaced(replaced(service_template(), "input_param_type"@, ty), "return_ty"@, ret_ty),
            "service_func_name"@,
            sfn,
        ),
        "return_statement"@,
        rs,
    );
    let main = replaced(replaced(main_template(), "CFG_NAME"@, name), "service_func_name"@, sfn);
    let parts = input.cfn_parts();
    let region = input.region@;
    let ru = replaced(region, "-"@, "_"@);
    let target = "aarch64-unknown-linux-musl"@;
    let target_dir = "target_"@ + name;
    let entries = seq![
        unique_entry("deploy.sh"@, "# 0. pre-build:"@, random_name_cmd_text(ru)),
        unique_entry("deploy.sh"@, "# 0. pre-build:"@, create_bucket_cmd_text(ru, region)),
        unique_entry("deploy.sh"@, "# 0. pre-build:"@, save_bucket_name_cmd_text(ru)),
        plain_entry("deploy.sh"@, "# 1. build:"@, compile_cmd_text(name, target, target_dir)),
        plain_entry("deploy.sh"@, "# 1. build:"@, copy_cmd_text(target_dir, target, crate_name)),
        plain_entry("deploy.sh"@, "# 1. build:"@, md5_cmd_text(name)),
        plain_entry("deploy.sh"@, "# 1. build:"@, zip_cmd_text(name)),
        plain_entry("deploy.sh"@, "# 2. package:"@, get_bucket_name_cmd_text(name, ru)),
        plain_entry("deploy.sh"@, "# 2. package:"@, upload_cmd_text(name)),
        after_entry(
            "deploy.sh"@,
            "# 3. deploy:"@,
            deploy_cmd_text(region),
            bucket_param_value_text(parts.1, name) + " "@ + key_param_value_text(parts.2, name)
                + " "@,
        ),
        unique_entry("deploy.yml"@, "# 0"@, "AWSTemplateFormatVersion: '2010-09-09'"@),
        unique_entry("deploy.yml"@, "# 0"@, "Parameters:"@),
        unique_entry("deploy.yml"@, "# 1"@, "    DefaultParam:\n        Type: String"@),
        plain_entry("deploy.yml"@, "# 1"@, param_type_text(parts.1)),
        plain_entry("deploy.yml"@, "# 1"@, param_type_text(parts.2)),
        unique_entry("deploy.yml"@, "# 2"@, "Resources:"@),
        plain_entry("deploy.yml"@, "# 3"@, parts.0),
    ];
    (main, service, entries)
}

/// What applying the module gives: the problem with the settings, a refusal of an item that
/// is not a function, of a function without a return type, with a `Result` whose error is
/// not `lambda_runtime::Error`, or without exactly one parameter; otherwise the outputs.
pub open spec fn lambda_outcome(input: LambdaInput, d: UserData, crate_name: Seq<char>) -> Result<
    (Seq<char>, Seq<char>, Seq<EntryV>),
    Seq<char>,
> {
    match input.problem() {
        Some(m) => Err(m),
        None => match d {
            UserData::Function { name, is_async, inputs, return_ty, .. } => {
                let rt = without_char(return_ty@, ' ');
                if return_ty@.len() == 0 {
                    Err("Must provide a return type on your function"@)
                } else if seq_starts_with(rt, "Result<"@) && !seq_ends_with(
                    rt,
                    "lambda_runtime::Error>"@,
                ) {
                    Err(
                        "Your function uses an invalid result type '"@ + rt
                            + "'. If returning a Result<> the error type must be 'lambda_runtime::Error'"@,
                    )
                } else if inputs@.len() == 0 {
                    Err("Expected 1 function parameter for fn "@ + name@)
                } else if inputs@.len() != 1 {
                    Err("Expected only 1 function parameter for fn "@ + name@)
                } else {
                    Ok(lambda_outputs(input, name@, is_async, inputs@[0].ty@, rt, crate_name))
                }
            },
            _ => Err("This module can only be applied to a function"@),
        },
    }
}

/// The default settings of the function `func_name` (see `LambdaInput::new`).
pub open spec fn lambda_defaults(func_name: Seq<char>, inp: LambdaInput) -> bool {
    &&& vstd::utf8::encode_utf8(inp.function_name@) == truncate_bytes(
        vstd::utf8::encode_utf8(func_name),
        58,
    )
    &&& inp.resource_name@ == "Lambda"@ + inp.function_name@
    &&& inp.region@ == "us-west-2"@
    &&& inp.memory_size == 128
    &&& inp.timeout == 30
}

/// What finishing the settings `inp` makes of `before` (see `wasm_entrypoint_with`).
pub open spec fn lambda_finished(before: LibraryObj, after: LibraryObj, inp: LambdaInput) -> bool {
    &&& match lambda_outcome(inp, before.user_data, before.crate_name@) {
        Err(m) => after.compiler_error_message@ == with_error(before.compiler_error_message@, m)
            && after.entries() == before.entries() && after.add_code_after@
            == before.add_code_after@,
        Ok((main, service, entries)) => after.compiler_error_message@
            == before.compiler_error_message@ && after.entries() == before.entries() + entries
            && strs_view(after.add_code_after@) == strs_view(before.add_code_after@).push(main).push(
            service,
        ),
    }
    &&& after.user_data == before.user_data
    &&& after.crate_name@ == before.crate_name@
}

/// Once finishing a function's settings raises the first error, no deploy script or
/// template line and no code is added.
pub proof fn law_lambda_error_emits_nothing(before: LibraryObj, after: LibraryObj, inp: LambdaInput)
    requires
        lambda_finished(before, after, inp),
        before.compiler_error_message@.len() == 0,
        after.compiler_error_message@.len() > 0,
    ensures
        after.entries() == before.entries(),
        after.add_code_after@ == before.add_code_after@,
{
}

/// Applied to a function: makes the default settings for it and lets `cb` change them, then
/// finishes with `wasm_entrypoint_with`.
pub fn wasm_entrypoint(obj: &mut LibraryObj, cb: impl FnOnce(&mut LambdaInput))
    requires
        can_truncate(user_data_name(old(obj).user_data), 58),
        forall|q: &mut LambdaInput| cb.requires((q,)),
    ensures
        exists|q: &mut LambdaInput|
            {
                &&& lambda_defaults(user_data_name(old(obj).user_data), *q)
                &&& #[trigger] cb.ensures((q,), ())
                &&& lambda_finished(*old(obj), *final(obj), *final(q))
            },
{
    let name = obj.user_data.get_name();
    let mut lambda_input = LambdaInput::new(name.as_str());
    let q = &mut lambda_input;
    cb(q);
    wasm_entrypoint_with(obj, &lambda_input);
}

/// Finishes the settings of a function (see `lambda_outcome`): a problem becomes the
/// compiler error; otherwise the entry point and handler are added after the function and
/// the deploy script and template lines are asked for.
pub fn wasm_entrypoint_with(obj: &mut LibraryObj, lambda_input: &LambdaInput)
    ensures
        match lambda_outcome(*lambda_input, old(obj).user_data, old(obj).crate_name@) {
            Err(m) => final(obj).compiler_error_message@ == with_error(
                old(obj).compiler_error_message@,
                m,
            ) && final(obj).entries() == old(obj).entries() && final(obj).add_code_after@
                == old(obj).add_code_after@,
            Ok((main, service, entries)) => final(obj).compiler_error_message@ == old(
                obj,
            ).compiler_error_message@ && final(obj).entries() == old(obj).entries() + entries
                && strs_view(final(obj).add_code_after@) == strs_view(
                old(obj).add_code_after@,
            ).push(main).push(service),
        },
        final(obj).user_data == old(obj).user_data,
        final(obj).crate_name@ == old(obj).crate_name@,
{
    let (cfn_resources, bucket_param, key_param) = match lambda_input.verify_and_output_cfn() {
        Ok(x) => x,
        Err(m) => {
            obj.compiler_error(m.as_str());
            return ;
        },
    };
    let (name, is_async, n_inputs, input_ty, return_ty) = match &obj.user_data {
        UserData::Function { name, is_async, inputs, return_ty, .. } => {
            let ty = if inputs.len() > 0 {
                inputs[0].ty.clone()
            } else {
                String::new()
            };
            (name.clone(), *is_async, inputs.len(), ty, return_ty.clone())
        },
        _ => {
            obj.compiler_error("This module can only be applied to a function");
            return ;
        },
    };
    if return_ty.as_str().unicode_len() == 0 {
        obj.compiler_error("Must provide a return type on your function");
        return ;
    }
    let rt = remove_char(return_ty.as_str(), ' ');
    let is_result = starts_with(rt.as_str(), "Result<");
    if is_result && !ends_with(rt.as_str(), "lambda_runtime::Error>") {
        let m = concat3(
            "Your function uses an invalid result type '",
            rt.as_str(),
            "'. If returning a Result<> the error type must be 'lambda_runtime::Error'",
        );
        obj.compiler_error(m.as_str());
        return ;
    }
    if n_inputs == 0 {
        let mut m = to_string("Expected 1 function parameter for fn ");
        m.append(name.as_str());
        obj.compiler_error(m.as_str());
        return ;
    }
    if n_inputs != 1 {
        let mut m = to_string("Expected only 1 function parameter for fn ");
        m.append(name.as_str());
        obj.compiler_error(m.as_str());
        return ;
    }
    let ret_ty = if !is_result {
        concat3("Result<", rt.as_str(), ", lambda_runtime::Error>")
    } else {
        rt.clone()
    };
    let mut service_func_name = to_string("service_func_");
    service_func_name.append(name.as_str());
    let mut return_statement = name.clone();
    if is_async {
        return_statement.append("(x).await");
    } else {
        return_statement.append("(x)");
    }
    if !is_result {
        return_statement = concat3("Ok(", return_statement.as_str(), ")");
    }
    proof {
        reveal_strlit("input_param_type");
        reveal_strlit("return_ty");
        reveal_strlit("service_func_name");
        reveal_strlit("return_statement");
        reveal_strlit("CFG_NAME");
        reveal_strlit("-");
    }
    let template = to_string(
        "#[allow(dead_code)] async fn service_func_name(event: lambda_runtime::LambdaEvent<input_param_type>) -> return_ty { let (x, _context) = event.into_parts(); return_statement }",
    );
    let s1 = replace_all(template.as_str(), "input_param_type", input_ty.as_str());
    let s2 = replace_all(s1.as_str(), "return_ty", ret_ty.as_str());
    let s3 = replace_all(s2.as_str(), "service_func_name", service_func_name.as_str());
    let service_func_def = replace_all(s3.as_str(), "return_statement", return_statement.as_str());
    let main_template = to_string(
        "#[cfg(CFG_NAME)] #[tokio::main] async fn main() -> Result<(), lambda_runtime::Error> { let func = lambda_runtime::service_fn(service_func_name); lambda_runtime::run(func).await?; Ok(()) }",
    );
    let m1 = replace_all(main_template.as_str(), "CFG_NAME", name.as_str());
    let main_func_def = replace_all(m1.as_str(), "service_func_name", service_func_name.as_str());
    let ghost code_before = strs_view(obj.add_code_after@);
    obj.add_code_after.push(main_func_def);
    obj.add_code_after.push(service_func_def);
    assert(strs_view(obj.add_code_after@) =~= code_before.push(main_func_def@).push(
        service_func_def@,
    ));

    let region = lambda_input.region.as_str();
    let region_underscores = replace_all(region, "-", "_");
    let ru = region_underscores.as_str();
    let target = "aarch64-unknown-linux-musl";
    let mut target_dir = to_string("target_");
    target_dir.append(name.as_str());
    let crate_name = obj.crate_name.clone();
    let random_name_cmd = random_name_cmd_text_string(ru);
    let create_deploy_bucket_cmd = create_bucket_cmd_text_string(ru, region);
    let save_bucket_name_cmd = save_bucket_name_cmd_text_string(ru);
    let get_artifact_bucket_name = get_bucket_name_cmd_text_string(name.as_str(), ru);
    let compilecmd = compile_cmd_text_string(name.as_str(), target, target_dir.as_str());
    let copycmd = copy_cmd_text_string(target_dir.as_str(), target, crate_name.as_str());
    let md5cmd = md5_cmd_text_string(name.as_str());
    let zipcmd = zip_cmd_text_string(name.as_str());
    let deployartifactcmd = upload_cmd_text_string(name.as_str());
    let deploycfncmd = deploy_cmd_text_string(region);
    let param1 = bucket_param_value_text_string(bucket_param.as_str(), name.as_str());
    let param2 = key_param_value_text_string(key_param.as_str(), name.as_str());
    let mut params = concat3(param1.as_str(), " ", param2.as_str());
    params.append(" ");
    let bucket_line = param_type_text_string(bucket_param.as_str());
    let key_line = param_type_text_string(key_param.as_str());

    let ghost e0 = obj.entries();
    obj.append_to_file_unique("deploy.sh", "# 0. pre-build:", random_name_cmd);
    obj.append_to_file_unique("deploy.sh", "# 0. pre-build:", create_deploy_bucket_cmd);
    obj.append_to_file_unique("deploy.sh", "# 0. pre-build:", save_bucket_name_cmd);
    obj.append_to_file("deploy.sh", "# 1. build:", compilecmd);
    obj.append_to_file("deploy.sh", "# 1. build:", copycmd);
    obj.append_to_file("deploy.sh", "# 1. build:", md5cmd);
    obj.append_to_file("deploy.sh", "# 1. build:", zipcmd);
    obj.append_to_file("deploy.sh", "# 2. package:", get_artifact_bucket_name);
    obj.append_to_file("deploy.sh", "# 2. package:", deployartifactcmd);
    obj.append_to_line("deploy.sh", "# 3. deploy:", deploycfncmd, params);
    obj.append_to_file_unique("deploy.yml", "# 0", to_string("AWSTemplateFormatVersion: '2010-09-09'"));
    obj.append_to_file_unique("deploy.yml", "# 0", to_string("Parameters:"));
    obj.append_to_file_unique("deploy.yml", "# 1", to_string("    DefaultParam:\n        Type: String"));
    obj.append_to_file("deploy.yml", "# 1", bucket_line);
    obj.append_to_file("deploy.yml", "# 1", key_line);
    obj.append_to_file_unique("deploy.yml", "# 2", to_string("Resources:"));
    obj.append_to_file("deploy.yml", "# 3", cfn_resources);
    assert(obj.entries() =~= e0 + lambda_outputs(
        *lambda_input,
        name@,
        is_async,
        input_ty@,
        rt@,
        crate_name@,
    ).2);
}

} // verus!
