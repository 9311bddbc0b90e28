use vstd::prelude::*;
use vstd::string::*;

use crate::level0::{
    nested_put, FunctionSignature, L0CodeReader, L0CodeWriter, L0Core, L0RuntimeCreator,
    RuntimeMeta, meta_view,
};
use crate::text::{
    concat3, ends_with, remove_char, seq_ends_with, seq_starts_with, starts_with, to_string,
    without_char, seq_contains_run,
};

verus! {

/// The architecture a function is compiled for.
#[derive(PartialEq, Eq, Structural, Clone, Copy, Debug)]
pub enum Arch {
    Arm64,
    X86,
}

/// The compilation target of an architecture.
pub open spec fn arch_target(a: Arch) -> Seq<char> {
    match a {
        Arch::Arm64 => "aarch64-unknown-linux-musl"@,
        Arch::X86 => "x86_64-unknown-linux-musl"@,
    }
}

/// The name the template gives an architecture.
pub open spec fn arch_name(a: Arch) -> Seq<char> {
    match a {
        Arch::X86 => "x86_64"@,
        Arch::Arm64 => "arm64"@,
    }
}

impl Default for Arch {
    fn default() -> (r: Arch)
        ensures
            r == Arch::Arm64,
    {
        Arch::Arm64
    }
}

impl Arch {
    /// The compilation target of the architecture.
    pub fn to_string(&self) -> (r: String)
        ensures
            r@ == arch_target(*self),
    {
        match self {
            Arch::Arm64 => to_string("aarch64-unknown-linux-musl"),
            Arch::X86 => to_string("x86_64-unknown-linux-musl"),
        }
    }
}

/// The event a function URL hands to a function.
pub struct FunctionUrlEvent {
    pub version: String,
    pub body: String,
    pub is_base64_encoded: bool,
}

impl Default for FunctionUrlEvent {
    fn default() -> (r: FunctionUrlEvent)
        ensures
            r.version@.len() == 0,
            r.body@.len() == 0,
            !r.is_base64_encoded,
    {
        FunctionUrlEvent { version: String::new(), body: String::new(), is_base64_encoded: false }
    }
}

/// What a function answers a function URL with.
pub struct FunctionUrlResponse {
    pub status_code: u32,
    pub body: String,
    pub is_base64_encoded: bool,
    /// header name, value pairs
    pub headers: Vec<(String, String)>,
}

/// The settings of a lambda function.
pub struct Input {
    /// no policy statements for logging when set
    pub disable_cloudwatch_logging: bool,
    /// more (effect, action, resource) statements for the function's role
    pub extra_policy_statements: Vec<(String, String, String)>,
    /// a role to use instead of the one that is made
    pub role_arn: String,
    /// whether a function URL is made; also set when `lambda_main` takes a
    /// `FunctionUrlEvent`
    pub use_function_url: bool,
    pub architecture: Arch,
}

impl Default for Input {
    fn default() -> (r: Input)
        ensures
            !r.disable_cloudwatch_logging,
            r.extra_policy_statements@.len() == 0,
            r.role_arn@.len() == 0,
            !r.use_function_url,
            r.architecture == Arch::Arm64,
    {
        Input {
            disable_cloudwatch_logging: false,
            extra_policy_statements: Vec::new(),
            role_arn: String::new(),
            use_function_url: false,
            architecture: Arch::Arm64,
        }
    }
}

/// What `lambda_main`'s signature gives: the statement that calls it, the handler's return
/// type and the event type; or why it is refused: no return type, a `Result` whose error
/// is not `BoxError`, or not exactly one parameter.
pub open spec fn lambda_main_parts(sig: FunctionSignature) -> Result<
    (Seq<char>, Seq<char>, Seq<char>),
    Seq<char>,
> {
    let rt = without_char(sig.return_ty@, ' ');
    let wrap = !seq_starts_with(rt, "Result<"@);
    if sig.return_ty@.len() == 0 {
        Err("Must provide a return type for your lambda_main function"@)
    } else if !wrap && !seq_ends_with(rt, "BoxError>"@) {
        Err(
            "Your function uses an invalid result type '"@ + rt
                + "'. If returning a Result<> the error type must be '::aws_lambda::h_aws_lambda::BoxError'"@,
        )
    } else if sig.inputs@.len() == 0 {
        Err("Expected 1 function parameter for fn lambda_main"@)
    } else if sig.inputs@.len() != 1 {
        Err("Expected only 1 function parameter for fn lambda_main"@)
    } else {
        let call = if sig.is_async {
            "lambda_main(x).await"@
        } else {
            "lambda_main(x)"@
        };
        (Ok(
            (
                if wrap {
                    "Ok("@ + call + ")"@
                } else {
                    call
                },
                if wrap {
                    "Result<"@ + rt + ", ::aws_lambda::h_aws_lambda::BoxError>"@
                } else {
                    rt
                },
                sig.inputs@[0].ty@,
            ),
        ))
    }
}

/// Checks the signature of `lambda_main` (see `lambda_main_parts`); an event type ending
/// in `FunctionUrlEvent` asks for a function URL.
pub fn validate_lambda_main_signature(sig: &FunctionSignature, use_event_func_url: &mut bool) -> (r:
    Result<(String, String, String), String>)
    ensures
        match lambda_main_parts(*sig) {
            Ok(p) => r matches Ok(q) && (q.0@, q.1@, q.2@) == p && *final(use_event_func_url) == (
            *old(use_event_func_url) || seq_ends_with(p.2, "FunctionUrlEvent"@)),
            Err(m) => r matches Err(e) && e@ == m && *final(use_event_func_url) == *old(
                use_event_func_url,
            ),
        },
{
    if sig.return_ty.as_str().unicode_len() == 0 {
        return Err(to_string("Must provide a return type for your lambda_main function"));
    }
    let return_ty = remove_char(sig.return_ty.as_str(), ' ');
    let is_result = starts_with(return_ty.as_str(), "Result<");
    if is_result && !ends_with(return_ty.as_str(), "BoxError>") {
        return Err(
            concat3(
                "Your function uses an invalid result type '",
                return_ty.as_str(),
                "'. If returning a Result<> the error type must be '::aws_lambda::h_aws_lambda::BoxError'",
            ),
        );
    }
    let b = if is_result {
        return_ty.clone()
    } else {
        concat3("Result<", return_ty.as_str(), ", ::aws_lambda::h_aws_lambda::BoxError>")
    };
    if sig.inputs.len() == 0 {
        return Err(to_string("Expected 1 function parameter for fn lambda_main"));
    }
    if sig.inputs.len() != 1 {
        return Err(to_string("Expected only 1 function parameter for fn lambda_main"));
    }
    let input_param_type = sig.inputs[0].ty.clone();
    if ends_with(input_param_type.as_str(), "FunctionUrlEvent") {
        *use_event_func_url = true;
    }
    let mut return_statement = if sig.is_async {
        to_string("lambda_main(x).await")
    } else {
        to_string("lambda_main(x)")
    };
    if !is_result {
        return_statement = concat3("Ok(", return_statement.as_str(), ")");
    }
    Ok((return_statement, b, input_param_type))
}

/// The names and settings from which the function's template resources are made.
pub struct LambdaResources {
    /// the runtime that runs the function, named after the user's module
    pub runtime_name: String,
    pub logical_fn_name: String,
    pub role_name: String,
    pub logical_role_name: String,
    pub policy_name: String,
    pub role_description: String,
    /// (effect, action, resource) statements of the role's policy
    pub statements: Vec<(String, String, String)>,
    /// whether the made role is used (no role was given)
    pub make_role: bool,
    pub role_arn: String,
    /// `x86_64` or `arm64`
    pub architecture: String,
    pub arn_output_name: String,
    /// the code that runs before the stack is deployed
    pub run_before: String,
    /// (logical URL name, logical permission name, output name) when a URL is made
    pub function_url: Option<(String, String, String)>,
}

pub open spec fn statements_view(v: Seq<(String, String, String)>) -> Seq<
    (Seq<char>, Seq<char>, Seq<char>),
> {
    Seq::new(v.len(), |i: int| (v[i].0@, v[i].1@, v[i].2@))
}

/// The policy statements of a function's role: logging unless disabled, then the extra ones.
pub open spec fn role_statements(disable_logging: bool, extra: Seq<(Seq<char>, Seq<char>, Seq<char>)>) -> Seq<
    (Seq<char>, Seq<char>, Seq<char>),
> {
    (if disable_logging {
        Seq::empty()
    } else {
        seq![
            ("Allow"@, "logs:CreateLogGroup"@, "*"@),
            ("Allow"@, "logs:CreateLogStream"@, "*"@),
            ("Allow"@, "logs:PutLogEvents"@, "*"@),
        ]
    }) + extra
}

pub open spec fn service_signature(ty: Seq<char>, ret: Seq<char>) -> Seq<char> {
    "pub async fn service_func(event: lambda_runtime::LambdaEvent<"@ + ty + ">) -> "@ + ret
}

pub open spec fn service_body(call: Seq<char>) -> Seq<char> {
    "let (x, _context) = event.into_parts(); "@ + call
}

pub open spec fn entrypoint_signature() -> Seq<char> {
    "pub async fn entrypoint() -> Result<(), ::aws_lambda::h_aws_lambda::BoxError>"@
}

pub open spec fn entrypoint_body() -> Seq<char> {
    "let func = lambda_runtime::service_fn(service_func);\nlambda_runtime::run(func).await?;\nOk(())"@
}

fn push_statement(v: &mut Vec<(String, String, String)>, a: &str, b: &str, c: &str)
    ensures
        statements_view(final(v)@) == statements_view(old(v)@).push((a@, b@, c@)),
{
    let ghost before = statements_view(v@);
    v.push((to_string(a), to_string(b), to_string(c)));
    assert(statements_view(v@) =~= before.push((a@, b@, c@)));
}

/// Makes a lambda function of the user's `lambda_main`: writes its handler and entry point
/// into the user's module, adds the entry point to a runtime named after the module (cross
/// compiled for the architecture, in release), sets the `LOGICAL_FUNCTION_NAME` output (and
/// `LOGICAL_FUNCTION_URL_NAME` when a URL is made), and gives the names the template
/// resources are made from. A missing or refused `lambda_main` is reported as the compiler
/// error and gives nothing.
pub fn config(
    inp: &mut Input,
    l0code: &L0CodeReader,
    runtimer: &mut L0RuntimeCreator,
    l0core: &mut L0Core,
    l0write: &mut L0CodeWriter,
) -> (r: Option<LambdaResources>)
    requires
        l0code.wf(),
        old(runtimer).wf(),
        old(l0core).wf(),
        old(l0write).wf(),
    ensures
        final(runtimer).wf(),
        final(l0core).wf(),
        final(l0write).wf(),
        r is None ==> *final(runtimer) == *old(runtimer) && *final(l0write) == *old(l0write)
            && final(l0core).module_outputs@ == old(l0core).module_outputs@,
        !l0code.signatures().dom().contains("lambda_main"@) ==> r is None
            && final(l0core).compiler_error_message@ == (if old(
            l0core,
        ).compiler_error_message@.len() == 0 {
            "Missing lambda_main function"@
        } else {
            old(l0core).compiler_error_message@
        }),
        l0code.signatures().dom().contains("lambda_main"@) ==> match lambda_main_parts(
            l0code.signatures()["lambda_main"@],
        ) {
            Err(m) => r is None && final(l0core).compiler_error_message@ == (if old(
                l0core,
            ).compiler_error_message@.len() == 0 {
                m
            } else {
                old(l0core).compiler_error_message@
            }),
            Ok(p) => {
                let m = old(l0core).lvl3_module_name@;
                let url = old(inp).use_function_url || seq_ends_with(p.2, "FunctionUrlEvent"@);
                let fnn = without_char("hiragen"@ + m, '_');
                let urln = without_char("hiragen"@ + m + "url"@, '_');
                &&& final(inp).use_function_url == url
                &&& final(l0write).written() == nested_put(
                    nested_put(
                        old(l0write).written(),
                        old(l0write).current_module_name@,
                        "module|"@ + service_signature(p.2, p.1),
                        service_body(p.0),
                    ),
                    old(l0write).current_module_name@,
                    "module|"@ + entrypoint_signature(),
                    entrypoint_body(),
                )
                &&& final(runtimer).runtimes_map().dom().contains(m)
                &&& final(runtimer).runtimes_map()[m].0.last() == (
                    old(runtimer).current_module_name@,
                    m + "::entrypoint().await.expect(\"Lambda Error\")"@,
                    false,
                )
                &&& final(l0core).compiler_error_message@ == old(l0core).compiler_error_message@
                &&& final(l0core).outputs() == if url {
                    nested_put(
                        nested_put(
                            old(l0core).outputs(),
                            old(l0core).current_module_name@,
                            "LOGICAL_FUNCTION_NAME"@,
                            fnn,
                        ),
                        old(l0core).current_module_name@,
                        "LOGICAL_FUNCTION_URL_NAME"@,
                        urln,
                    )
                } else {
                    nested_put(
                        old(l0core).outputs(),
                        old(l0core).current_module_name@,
                        "LOGICAL_FUNCTION_NAME"@,
                        fnn,
                    )
                }
                &&& r matches Some(res) && {
                    &&& res.runtime_name@ == m
                    &&& res.logical_fn_name@ == fnn
                    &&& res.role_name@ == "hira-gen-"@ + m + "-role"@
                    &&& res.logical_role_name@ == without_char(
                        without_char("hira-gen-"@ + m + "-role"@, '-'),
                        '_',
                    )
                    &&& res.policy_name@ == "hira-gen-policy-"@ + m
                    &&& res.role_description@ == "auto generated for "@ + m
                    &&& statements_view(res.statements@) == role_statements(
                        old(inp).disable_cloudwatch_logging,
                        statements_view(old(inp).extra_policy_statements@),
                    )
                    &&& res.make_role == (old(inp).role_arn@.len() == 0)
                    &&& res.role_arn@ == old(inp).role_arn@
                    &&& res.architecture@ == arch_name(old(inp).architecture)
                    &&& res.arn_output_name@ == without_char("LambdaFunctionArn"@ + m, '_')
                    &&& res.run_before@ == "::aws_lambda::setup_lambda(&mut runtime_data).await"@
                    &&& if url {
                        res.function_url matches Some(u) && u.0@ == urln && u.1@ == urln
                            + "permission"@ && u.2@ == without_char("LambdaFunctionUrl"@ + m, '_')
                    } else {
                        res.function_url is None
                    }
                }
            },
        },
{
    let user_mod_name = l0core.users_module_name();
    let lambda_main_signature = match l0code.get_fn("lambda_main") {
        Some(sig) => sig,
        None => {
            l0core.compiler_error("Missing lambda_main function");
            return None;
        },
    };
    let (return_statement, return_ty, input_param_type) = match validate_lambda_main_signature(
        lambda_main_signature,
        &mut inp.use_function_url,
    ) {
        Err(e) => {
            l0core.compiler_error(e.as_str());
            return None;
        },
        Ok(p) => p,
    };
    let service_sig = concat3(
        "pub async fn service_func(event: lambda_runtime::LambdaEvent<",
        input_param_type.as_str(),
        ">) -> ",
    );
    let mut service_sig = service_sig;
    service_sig.append(return_ty.as_str());
    let mut service_body_text = to_string("let (x, _context) = event.into_parts(); ");
    service_body_text.append(return_statement.as_str());
    l0write.write_internal_fn(service_sig, service_body_text);
    l0write.write_internal_fn(
        to_string("pub async fn entrypoint() -> Result<(), ::aws_lambda::h_aws_lambda::BoxError>"),
        to_string(
            "let func = lambda_runtime::service_fn(service_func);\nlambda_runtime::run(func).await?;\nOk(())",
        ),
    );
    let mut code = user_mod_name.clone();
    code.append("::entrypoint().await.expect(\"Lambda Error\")");
    let meta = RuntimeMeta {
        cargo_cmd: to_string("cross"),
        target: inp.architecture.to_string(),
        profile: to_string("release"),
    };
    runtimer.add_to_runtime_ex(user_mod_name.as_str(), code, meta);

    let mut statements: Vec<(String, String, String)> = Vec::new();
    if !inp.disable_cloudwatch_logging {
        push_statement(&mut statements, "Allow", "logs:CreateLogGroup", "*");
        push_statement(&mut statements, "Allow", "logs:CreateLogStream", "*");
        push_statement(&mut statements, "Allow", "logs:PutLogEvents", "*");
    }
    let ghost head = statements_view(statements@);
    let ghost extra = statements_view(inp.extra_policy_statements@);
    let n = inp.extra_policy_statements.len();
    let mut i: usize = 0;
    assert(head + extra.subrange(0, 0) =~= head);
    while i < n
        invariant
            n == inp.extra_policy_statements@.len(),
            extra == statements_view(inp.extra_policy_statements@),
            i <= n,
            statements_view(statements@) == head + extra.subrange(0, i as int),
        decreases n - i,
    {
        let s = &inp.extra_policy_statements[i];
        push_statement(&mut statements, s.0.as_str(), s.1.as_str(), s.2.as_str());
        assert(head + extra.subrange(0, i + 1) =~= (head + extra.subrange(0, i as int)).push(
            extra[i as int],
        ));
        i = i + 1;
    }
    assert(extra.subrange(0, n as int) =~= extra);
    proof {
        if inp.disable_cloudwatch_logging {
            assert(head =~= Seq::<(Seq<char>, Seq<char>, Seq<char>)>::empty());
        } else {
            assert(head =~= seq![
                ("Allow"@, "logs:CreateLogGroup"@, "*"@),
                ("Allow"@, "logs:CreateLogStream"@, "*"@),
                ("Allow"@, "logs:PutLogEvents"@, "*"@),
            ]);
        }
    }

    let policy_name = concat3("hira-gen-policy-", user_mod_name.as_str(), "");
    let role_name = concat3("hira-gen-", user_mod_name.as_str(), "-role");
    let no_dash = remove_char(role_name.as_str(), '-');
    let logical_role_name = remove_char(no_dash.as_str(), '_');
    let fn_name = concat3("hiragen", user_mod_name.as_str(), "");
    let logical_fn_name = remove_char(fn_name.as_str(), '_');
    let role_description = concat3("auto generated for ", user_mod_name.as_str(), "");
    let architecture = match inp.architecture {
        Arch::X86 => to_string("x86_64"),
        Arch::Arm64 => to_string("arm64"),
    };
    l0core.set_output("LOGICAL_FUNCTION_NAME", logical_fn_name.as_str());
    let arn_name = concat3("LambdaFunctionArn", user_mod_name.as_str(), "");
    let arn_output_name = remove_char(arn_name.as_str(), '_');
    let function_url = if inp.use_function_url {
        let url_name = concat3("hiragen", user_mod_name.as_str(), "url");
        let logical_url_name = remove_char(url_name.as_str(), '_');
        let logical_permission_name = concat3(logical_url_name.as_str(), "permission", "");
        let out_name = concat3("LambdaFunctionUrl", user_mod_name.as_str(), "");
        let url_output_name = remove_char(out_name.as_str(), '_');
        l0core.set_output("LOGICAL_FUNCTION_URL_NAME", logical_url_name.as_str());
        Some((logical_url_name, logical_permission_name, url_output_name))
    } else {
        None
    };
    proof {
        reveal_strlit("");
        assert("hira-gen-policy-"@ + user_mod_name@ + ""@ =~= "hira-gen-policy-"@ + user_mod_name@);
        assert("hiragen"@ + user_mod_name@ + ""@ =~= "hiragen"@ + user_mod_name@);
        assert("auto generated for "@ + user_mod_name@ + ""@ =~= "auto generated for "@ + user_mod_name@);
        assert("LambdaFunctionArn"@ + user_mod_name@ + ""@ =~= "LambdaFunctionArn"@ + user_mod_name@);
        assert("LambdaFunctionUrl"@ + user_mod_name@ + ""@ =~= "LambdaFunctionUrl"@ + user_mod_name@);
    }
    Some(
        LambdaResources {
            runtime_name: user_mod_name,
            logical_fn_name,
            role_name,
            logical_role_name,
            policy_name,
            role_description,
            statements,
            make_role: inp.role_arn.as_str().unicode_len() == 0,
            role_arn: inp.role_arn.clone(),
            architecture,
            arn_output_name,
            run_before: to_string("::aws_lambda::setup_lambda(&mut runtime_data).await"),
            function_url,
        },
    )
}

proof fn lemma_no_await_without_dot(s: Seq<char>)
    requires
        forall|k: int| 0 <= k < s.len() ==> s[k] != '.',
    ensures
        !seq_contains_run(s, ".await"@),
{
    reveal_strlit(".await");
    if seq_contains_run(s, ".await"@) {
        let i = choose|i: int| 0 <= i && i + 6 <= s.len() && #[trigger] s.subrange(i, i + 6) == ".await"@;
        assert(s.subrange(i, i + 6)[0] == s[i]);
        assert(".await"@[0] == '.');
    }
}

proof fn lemma_no_dot_in_sync_call()
    ensures
        forall|k: int| 0 <= k < "lambda_main(x)"@.len() ==> "lambda_main(x)"@[k] != '.',
        forall|k: int| 0 <= k < "Ok(lambda_main(x))"@.len() ==> "Ok(lambda_main(x))"@[k] != '.',
{
    reveal_strlit("lambda_main(x)");
    reveal_strlit("Ok(lambda_main(x))");
}

proof fn lemma_async_runs()
    ensures
        seq_contains_run("lambda_main(x).await"@, "lambda_main(x)"@),
        seq_contains_run("lambda_main(x).await"@, ".await"@),
        seq_contains_run("Ok(lambda_main(x).await)"@, "lambda_main(x)"@),
        seq_contains_run("Ok(lambda_main(x).await)"@, ".await"@),
        seq_contains_run("lambda_main(x)"@, "lambda_main(x)"@),
        seq_contains_run("Ok(lambda_main(x))"@, "lambda_main(x)"@),
{
    reveal_strlit("lambda_main(x).await");
    reveal_strlit("Ok(lambda_main(x).await)");
    reveal_strlit("lambda_main(x)");
    reveal_strlit("Ok(lambda_main(x))");
    reveal_strlit(".await");
    let a = "lambda_main(x).await"@;
    let b = "Ok(lambda_main(x).await)"@;
    let c = "lambda_main(x)"@;
    let d = "Ok(lambda_main(x))"@;
    let z: int = 0;
    let t: int = 3;
    let f: int = 14;
    let g: int = 17;
    assert(a.subrange(z, z + c.len()) =~= c);
    assert(a.subrange(f, f + ".await"@.len()) =~= ".await"@);
    assert(b.subrange(t, t + c.len()) =~= c);
    assert(b.subrange(g, g + ".await"@.len()) =~= ".await"@);
    assert(c.subrange(z, z + c.len()) =~= c);
    assert(d.subrange(t, t + c.len()) =~= c);
}

proof fn lemma_statement_shape(sig: FunctionSignature)
    requires
        lambda_main_parts(sig) is Ok,
    ensures
        sig.is_async ==> (lambda_main_parts(sig)->Ok_0.0 == "lambda_main(x).await"@
            || lambda_main_parts(sig)->Ok_0.0 == "Ok(lambda_main(x).await)"@),
        !sig.is_async ==> (lambda_main_parts(sig)->Ok_0.0 == "lambda_main(x)"@
            || lambda_main_parts(sig)->Ok_0.0 == "Ok(lambda_main(x))"@),
{
    reveal_strlit("lambda_main(x).await");
    reveal_strlit("Ok(lambda_main(x).await)");
    reveal_strlit("lambda_main(x)");
    reveal_strlit("Ok(lambda_main(x))");
    reveal_strlit("Ok(");
    reveal_strlit(")");
    assert("Ok("@ + "lambda_main(x).await"@ + ")"@ =~= "Ok(lambda_main(x).await)"@);
    assert("Ok("@ + "lambda_main(x)"@ + ")"@ =~= "Ok(lambda_main(x))"@);
}

/// The statement made from an accepted `lambda_main` calls `lambda_main(x)`, and awaits the
/// call exactly when `lambda_main` is async.
pub proof fn law_lambda_main_await(sig: FunctionSignature)
    requires
        lambda_main_parts(sig) is Ok,
    ensures
        seq_contains_run(lambda_main_parts(sig)->Ok_0.0, "lambda_main(x)"@),
        seq_contains_run(lambda_main_parts(sig)->Ok_0.0, ".await"@) <==> sig.is_async,
{
    let stmt = lambda_main_parts(sig)->Ok_0.0;
    lemma_statement_shape(sig);
    lemma_async_runs();
    if !sig.is_async {
        lemma_no_dot_in_sync_call();
        lemma_no_await_without_dot(stmt);
    }
}

} // verus!
