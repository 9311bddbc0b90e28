use vstd::prelude::*;
use vstd::string::*;

use crate::attributes::ConstTable;
use crate::kv::StrMap;
use crate::registry_modules::hira_awscfn::overrides_text;
use crate::shared_files::lines_text;
use crate::text::{push_char, strings_view, to_string};

verus! {

// ---------------------------------------------------------------- the .env file

/// The line without a final `\r`.
pub open spec fn strip_cr(l: Seq<char>) -> Seq<char> {
    if l.len() > 0 && l.last() == '\r' {
        l.drop_last()
    } else {
        l
    }
}

/// The place of the first `\n`.
pub open spec fn first_newline(s: Seq<char>) -> Option<int> {
    if exists|i: int| 0 <= i < s.len() && s[i] == '\n' {
        Some(
            choose|i: int|
                0 <= i < s.len() && s[i] == '\n' && forall|j: int| 0 <= j < i ==> s[j] != '\n',
        )
    } else {
        None
    }
}

/// The lines of a text as `str::lines` gives them: the text is split at each `\n`, a `\r`
/// right before a `\n` is dropped, and a final `\n` ends the last line.
#[verifier::opaque]
pub open spec fn text_lines(s: Seq<char>) -> Seq<Seq<char>>
    decreases s.len(),
{
    if s.len() == 0 {
        Seq::empty()
    } else {
        match first_newline(s) {
            Some(i) => if 0 <= i < s.len() {
                seq![strip_cr(s.subrange(0, i))] + text_lines(s.subrange(i + 1, s.len() as int))
            } else {
                Seq::empty()
            },
            None => seq![s],
        }
    }
}

/// The bindings after one line of a `.env` file: an empty line or a comment changes nothing;
/// `key=value` binds the key (the text before the first `=`) to the rest; other lines are
/// skipped.
pub open spec fn with_env_line(m: Map<Seq<char>, Seq<char>>, line: Seq<char>) -> Map<
    Seq<char>,
    Seq<char>,
> {
    if line.len() == 0 || line[0] == '#' {
        m
    } else {
        match crate::text::first_run_from(line, "="@, 0) {
            Some(k) => m.insert(line.subrange(0, k), line.subrange(k + 1, line.len() as int)),
            None => m,
        }
    }
}

/// The bindings of the lines of a `.env` file, read in order; a later binding of a key wins.
pub open spec fn env_bindings(lines: Seq<Seq<char>>) -> Map<Seq<char>, Seq<char>>
    decreases lines.len(),
{
    if lines.len() == 0 {
        Map::empty()
    } else {
        with_env_line(env_bindings(lines.drop_last()), lines.last())
    }
}

proof fn lemma_lines_step(s: Seq<char>, i: int)
    requires
        0 <= i < s.len(),
        s[i] == '\n',
        forall|j: int| 0 <= j < i ==> s[j] != '\n',
    ensures
        text_lines(s) == seq![strip_cr(s.subrange(0, i))] + text_lines(
            s.subrange(i + 1, s.len() as int),
        ),
{
    reveal(text_lines);
    assert(exists|k: int| 0 <= k < s.len() && s[k] == '\n');
    let k = choose|k: int|
        0 <= k < s.len() && s[k] == '\n' && forall|j: int| 0 <= j < k ==> s[j] != '\n';
    assert(k == i) by {
        if k < i {
        } else if k > i {
        }
    }
}

proof fn lemma_line_break(s: Seq<char>, start: int, i: int, done: Seq<Seq<char>>)
    requires
        0 <= start <= i < s.len(),
        s[i] == '\n',
        forall|j: int| start <= j < i ==> s[j] != '\n',
        done + text_lines(s.subrange(start, s.len() as int)) == text_lines(s),
    ensures
        done.push(strip_cr(s.subrange(start, i))) + text_lines(s.subrange(i + 1, s.len() as int))
            == text_lines(s),
{
    let rest = s.subrange(start, s.len() as int);
    assert(rest[i - start] == '\n');
    lemma_lines_step(rest, i - start);
    assert(rest.subrange(0, i - start) =~= s.subrange(start, i));
    assert(rest.subrange(i - start + 1, rest.len() as int) =~= s.subrange(i + 1, s.len() as int));
    assert(done.push(strip_cr(s.subrange(start, i))) + text_lines(s.subrange(i + 1, s.len() as int))
        =~= done + (seq![strip_cr(s.subrange(start, i))] + text_lines(
        s.subrange(i + 1, s.len() as int),
    )));
}

proof fn lemma_lines_last(s: Seq<char>)
    requires
        s.len() > 0,
        forall|j: int| 0 <= j < s.len() ==> s[j] != '\n',
    ensures
        text_lines(s) == seq![s],
{
    reveal(text_lines);
}

fn env_line_binding(line: &str, m: &mut StrMap)
    requires
        old(m).wf(),
    ensures
        final(m).wf(),
        final(m)@ == with_env_line(old(m)@, line@),
{
    let n = line.unicode_len();
    if n == 0 || line.get_char(0) == '#' {
        return ;
    }
    match crate::text::find_run(line, "=") {
        Some(k) => {
            proof {
                crate::text::lemma_first_run_bound(line@, "="@, 0);
                reveal_strlit("=");
            }
            let key = to_string(line.substring_char(0, k));
            let val = to_string(line.substring_char(k + 1, n));
            m.insert(key, val);
        },
        None => {},
    }
}

/// Reads the bindings of a `.env` file's text (see `env_bindings`).
pub fn parse_dot_env(contents: &str) -> (m: StrMap)
    ensures
        m.wf(),
        m@ == env_bindings(text_lines(contents@)),
{
    let n = contents.unicode_len();
    let ghost s = contents@;
    let mut m = StrMap::new();
    let mut line = String::new();
    let mut start: usize = 0;
    let mut i: usize = 0;
    let ghost done: Seq<Seq<char>> = Seq::empty();
    assert(s.subrange(0, n as int) =~= s);
    assert(done + text_lines(s.subrange(0, n as int)) =~= text_lines(s));
    while i < n
        invariant
            n == s.len(),
            s == contents@,
            start <= i <= n,
            line@ == s.subrange(start as int, i as int),
            forall|j: int| start <= j < i ==> s[j] != '\n',
            m.wf(),
            m@ == env_bindings(done),
            done + text_lines(s.subrange(start as int, n as int)) == text_lines(s),
        decreases n - i,
    {
        let c = contents.get_char(i);
        if c == '\n' {
            proof {
                lemma_line_break(s, start as int, i as int, done);
                assert(line@ =~= s.subrange(start as int, i as int));
            }
            let l = line.as_str().unicode_len();
            let stripped = if l > 0 && line.as_str().get_char(l - 1) == '\r' {
                to_string(line.as_str().substring_char(0, l - 1))
            } else {
                line.clone()
            };
            assert(stripped@ == strip_cr(line@));
            env_line_binding(stripped.as_str(), &mut m);
            proof {
                let nd = done.push(strip_cr(line@));
                assert(nd.drop_last() =~= done);
                done = nd;
            }
            line = String::new();
            start = i + 1;
            assert(line@ =~= s.subrange(start as int, start as int));
        } else {
            push_char(&mut line, c);
            assert(line@ =~= s.subrange(start as int, i + 1));
        }
        i = i + 1;
    }
    if start < n {
        proof {
            let rest = s.subrange(start as int, n as int);
            lemma_lines_last(rest);
            assert(rest =~= line@);
            let nd = done.push(line@);
            assert(nd.drop_last() =~= done);
            assert(nd =~= done + seq![line@]);
        }
        env_line_binding(line.as_str(), &mut m);
    } else {
        assert(s.subrange(start as int, n as int) =~= Seq::<char>::empty());
        reveal(text_lines);
        assert(done + Seq::<Seq<char>>::empty() =~= done);
    }
    m
}

// ---------------------------------------------------------------- the deployment

/// What the resource macros gather while a crate compiles, to write the deploy script and
/// template at the end.
pub struct DeployState {
    pub build_bucket: String,
    /// the region set by the user, or the default when none was set
    pub deploy_region: Result<String, String>,
    pub stack_name: String,
    pub build_commands: Vec<String>,
    pub package_commands: Vec<String>,
    pub deploy_commands: Vec<String>,
    pub post_commands: Vec<String>,
    pub resources: Vec<String>,
    pub parameter_values: Vec<(String, String)>,
    pub created_s3: bool,
    pub created_lambda: bool,
    pub dot_env: Option<StrMap>,
    pub loaded_consts: ConstTable,
}

pub open spec fn pair_views(v: Seq<(String, String)>) -> Seq<(Seq<char>, Seq<char>)> {
    Seq::new(v.len(), |i: int| (v[i].0@, v[i].1@))
}

impl DeployState {
    /// Nothing gathered; the region defaults to `us-east-1`.
    pub fn new() -> (r: DeployState)
        ensures
            r.build_bucket@.len() == 0,
            r.deploy_region matches Err(d) && d@ == "us-east-1"@,
            r.stack_name@.len() == 0,
            r.build_commands@.len() == 0,
            r.package_commands@.len() == 0,
            r.deploy_commands@.len() == 0,
            r.post_commands@.len() == 0,
            r.resources@.len() == 0,
            r.parameter_values@.len() == 0,
            !r.created_s3,
            !r.created_lambda,
            r.dot_env is None,
            r.loaded_consts.wf(),
            forall|k: Seq<char>| r.loaded_consts.lookup(k) is None,
    {
        DeployState {
            build_bucket: String::new(),
            deploy_region: Err(to_string("us-east-1")),
            stack_name: String::new(),
            build_commands: Vec::new(),
            package_commands: Vec::new(),
            deploy_commands: Vec::new(),
            post_commands: Vec::new(),
            resources: Vec::new(),
            parameter_values: Vec::new(),
            created_s3: false,
            created_lambda: false,
            dot_env: None,
            loaded_consts: ConstTable::new(),
        }
    }

    /// The region to deploy to.
    pub fn get_deploy_region(&self) -> (r: String)
        ensures
            r@ == (match self.deploy_region {
                Ok(s) => s@,
                Err(s) => s@,
            }),
    {
        match &self.deploy_region {
            Ok(s) => s.clone(),
            Err(e) => e.clone(),
        }
    }

    /// Sets the region to deploy to.
    pub fn set_deploy_region(&mut self, region: &str)
        ensures
            final(self).deploy_region matches Ok(s) && s@ == region@,
            final(self).build_commands == old(self).build_commands,
            final(self).resources == old(self).resources,
    {
        self.deploy_region = Ok(to_string(region));
    }

    /// Adds a build step.
    pub fn add_build_cmd(&mut self, cmd: &str)
        ensures
            strings_view(final(self).build_commands@) == strings_view(
                old(self).build_commands@,
            ).push(cmd@),
            final(self).parameter_values == old(self).parameter_values,
            final(self).resources == old(self).resources,
    {
        let ghost before = strings_view(self.build_commands@);
        self.build_commands.push(to_string(cmd));
        assert(strings_view(self.build_commands@) =~= before.push(cmd@));
    }

    /// Adds a packaging step.
    pub fn add_package_cmd(&mut self, cmd: &str)
        ensures
            strings_view(final(self).package_commands@) == strings_view(
                old(self).package_commands@,
            ).push(cmd@),
    {
        let ghost before = strings_view(self.package_commands@);
        self.package_commands.push(to_string(cmd));
        assert(strings_view(self.package_commands@) =~= before.push(cmd@));
    }

    /// Adds a deployment step.
    pub fn add_deploy_cmd(&mut self, cmd: &str)
        ensures
            strings_view(final(self).deploy_commands@) == strings_view(
                old(self).deploy_commands@,
            ).push(cmd@),
    {
        let ghost before = strings_view(self.deploy_commands@);
        self.deploy_commands.push(to_string(cmd));
        assert(strings_view(self.deploy_commands@) =~= before.push(cmd@));
    }

    /// Adds a step to run after deployment.
    pub fn add_post_cmd(&mut self, cmd: &str)
        ensures
            strings_view(final(self).post_commands@) == strings_view(
                old(self).post_commands@,
            ).push(cmd@),
            final(self).build_commands == old(self).build_commands,
            final(self).resources == old(self).resources,
    {
        let ghost before = strings_view(self.post_commands@);
        self.post_commands.push(to_string(cmd));
        assert(strings_view(self.post_commands@) =~= before.push(cmd@));
    }

    /// Adds a template parameter with the value it is deployed with.
    pub fn add_param_value(&mut self, key: &str, value: &str)
        ensures
            pair_views(final(self).parameter_values@) == pair_views(
                old(self).parameter_values@,
            ).push((key@, value@)),
            final(self).build_commands == old(self).build_commands,
            final(self).resources == old(self).resources,
    {
        let ghost before = pair_views(self.parameter_values@);
        self.parameter_values.push((to_string(key), to_string(value)));
        assert(pair_views(self.parameter_values@) =~= before.push((key@, value@)));
    }
}

/// The parameter declarations of the template: a heading, then each parameter as a string.
pub open spec fn param_decls_text(params: Seq<(Seq<char>, Seq<char>)>) -> Seq<char>
    decreases params.len(),
{
    if params.len() == 0 {
        Seq::empty()
    } else {
        param_decls_text(params.drop_last()) + "    "@ + params.last().0
            + ":\n        Type: String\n"@
    }
}

/// The build and package steps of the deploy script.
pub open spec fn deployment_head(build: Seq<Seq<char>>, bucket: Seq<char>, package: Seq<Seq<char>>) -> Seq<
    char,
> {
    "#!/usr/bin/env bash\n\n"@ + "# build:\n"@ + "rm -rf ./hira/out/\n"@ + lines_text(build)
        + "\n# package:\n"@ + (if bucket.len() > 0 {
        "aws s3 sync --size-only ./hira/out/ s3://"@ + bucket
    } else {
        Seq::empty()
    }) + lines_text(package) + "\n# deploy:\n"@
}

/// The command that deploys the template as the stack, with the parameter values.
pub open spec fn deploy_line(region: Seq<char>, stack: Seq<char>, params: Seq<(Seq<char>, Seq<char>)>) -> Seq<
    char,
> {
    "AWS_REGION="@ + region + " aws --region "@ + region + " cloudformation deploy --stack-name "@
        + stack + " --template-file ./hira/deploy.yml --capabilities CAPABILITY_NAMED_IAM"@ + (if params.len()
        > 0 {
        " --parameter-overrides "@ + overrides_text(params)
    } else {
        Seq::empty()
    })
}

/// The deploy and post-deploy steps of the deploy script.
pub open spec fn deployment_tail(deploy: Seq<Seq<char>>, post: Seq<Seq<char>>) -> Seq<char> {
    lines_text(deploy) + "\n# post-deploy:\n"@ + lines_text(post)
}

/// The deploy script: build, package, deploy and post-deploy steps, each step on a line.
pub open spec fn deployment_text(
    build: Seq<Seq<char>>,
    bucket: Seq<char>,
    package: Seq<Seq<char>>,
    region: Seq<char>,
    stack: Seq<char>,
    params: Seq<(Seq<char>, Seq<char>)>,
    deploy: Seq<Seq<char>>,
    post: Seq<Seq<char>>,
) -> Seq<char> {
    deployment_head(build, bucket, package) + deploy_line(region, stack, params) + deployment_tail(
        deploy,
        post,
    )
}

fn push_lines(out: &mut String, lines: &Vec<String>)
    ensures
        final(out)@ == old(out)@ + lines_text(strings_view(lines@)),
{
    let n = lines.len();
    let ghost all = strings_view(lines@);
    let mut i: usize = 0;
    assert(all.subrange(0, 0) =~= Seq::<Seq<char>>::empty());
    assert(old(out)@ + lines_text(Seq::<Seq<char>>::empty()) =~= old(out)@);
    while i < n
        invariant
            n == lines@.len(),
            all == strings_view(lines@),
            i <= n,
            out@ == old(out)@ + lines_text(all.subrange(0, i as int)),
        decreases n - i,
    {
        out.append(lines[i].as_str());
        out.append("\n");
        proof {
            let upto = all.subrange(0, i + 1);
            assert(upto.drop_last() =~= all.subrange(0, i as int));
            assert(upto.last() == all[i as int]);
            assert(out@ =~= old(out)@ + lines_text(upto));
        }
        i = i + 1;
    }
    assert(all.subrange(0, n as int) =~= all);
}

fn deploy_line_text(region: &str, stack: &str, params: &Vec<(String, String)>) -> (r: String)
    ensures
        r@ == deploy_line(region@, stack@, pair_views(params@)),
{
    let mut out = to_string("AWS_REGION=");
    out.append(region);
    out.append(" aws --region ");
    out.append(region);
    out.append(" cloudformation deploy --stack-name ");
    out.append(stack);
    out.append(" --template-file ./hira/deploy.yml --capabilities CAPABILITY_NAMED_IAM");
    let ghost pv = pair_views(params@);
    let ghost head = out@;
    if params.len() > 0 {
        out.append(" --parameter-overrides ");
        let n = params.len();
        let mut i: usize = 0;
        let ghost base = out@;
        assert(pv.subrange(0, 0) =~= Seq::<(Seq<char>, Seq<char>)>::empty());
        assert(base + overrides_text(pv.subrange(0, 0)) =~= base);
        while i < n
            invariant
                n == params@.len(),
                pv == pair_views(params@),
                i <= n,
                out@ == base + overrides_text(pv.subrange(0, i as int)),
            decreases n - i,
        {
            out.append(params[i].0.as_str());
            out.append("=");
            out.append(params[i].1.as_str());
            out.append(" ");
            proof {
                let upto = pv.subrange(0, i + 1);
                assert(upto.drop_last() =~= pv.subrange(0, i as int));
                assert(upto.last() == pv[i as int]);
                assert(out@ =~= base + overrides_text(upto));
            }
            i = i + 1;
        }
        assert(pv.subrange(0, n as int) =~= pv);
    } else {
        assert(head + Seq::<char>::empty() =~= head);
    }
    out
}

impl DeployState {
    /// The region as a string.
    pub open spec fn region_text(&self) -> Seq<char> {
        match self.deploy_region {
            Ok(s) => s@,
            Err(s) => s@,
        }
    }

    /// The text of the deploy script. The stack is the one set by the user, else the binary
    /// being built; with neither, there is no script.
    pub fn output_deployment_file(&self, cargo_bin_name: Option<&str>) -> (r: Result<String, String>)
        ensures
            self.stack_name@.len() == 0 && cargo_bin_name is None ==> (r matches Err(m) && m@
                == "No stack name provided, and failed to use cargo bin name as stack name"@),
            self.stack_name@.len() > 0 || cargo_bin_name is Some ==> (r matches Ok(t) && t@
                == deployment_text(
                strings_view(self.build_commands@),
                self.build_bucket@,
                strings_view(self.package_commands@),
                self.region_text(),
                if self.stack_name@.len() > 0 {
                    self.stack_name@
                } else {
                    cargo_bin_name->Some_0@
                },
                pair_views(self.parameter_values@),
                strings_view(self.deploy_commands@),
                strings_view(self.post_commands@),
            )),
    {
        let stack_name = if self.stack_name.as_str().unicode_len() > 0 {
            self.stack_name.clone()
        } else {
            match cargo_bin_name {
                Some(b) => to_string(b),
                None => {
                    return Err(
                        to_string(
                            "No stack name provided, and failed to use cargo bin name as stack name",
                        ),
                    );
                },
            }
        };
        let region = self.get_deploy_region();
        let mut out = self.deployment_head_text();
        let line = deploy_line_text(region.as_str(), stack_name.as_str(), &self.parameter_values);
        out.append(line.as_str());
        push_lines(&mut out, &self.deploy_commands);
        out.append("\n# post-deploy:\n");
        push_lines(&mut out, &self.post_commands);
        Ok(out)
    }

    fn deployment_head_text(&self) -> (r: String)
        ensures
            r@ == deployment_head(
                strings_view(self.build_commands@),
                self.build_bucket@,
                strings_view(self.package_commands@),
            ),
    {
        let mut out = to_string("#!/usr/bin/env bash\n\n");
        out.append("# build:\n");
        out.append("rm -rf ./hira/out/\n");
        push_lines(&mut out, &self.build_commands);
        out.append("\n# package:\n");
        let ghost before = out@;
        if self.build_bucket.as_str().unicode_len() > 0 {
            out.append("aws s3 sync --size-only ./hira/out/ s3://");
            out.append(self.build_bucket.as_str());
        } else {
            assert(before + Seq::<char>::empty() =~= before);
        }
        push_lines(&mut out, &self.package_commands);
        out.append("\n# deploy:\n");
        out
    }

    /// The text of the template: the version, the parameters (when there are any) and each
    /// resource on lines of its own.
    pub fn output_cloudformation_yml(&self) -> (r: String)
        ensures
            r@ == "AWSTemplateFormatVersion: '2010-09-09'\n"@ + (if self.parameter_values@.len()
                > 0 {
                "Parameters:\n"@ + param_decls_text(pair_views(self.parameter_values@))
            } else {
                Seq::empty()
            }) + "Resources:\n"@ + lines_text(strings_view(self.resources@)),
    {
        let mut out = to_string("AWSTemplateFormatVersion: '2010-09-09'\n");
        let ghost pv = pair_views(self.parameter_values@);
        let ghost head = out@;
        if self.parameter_values.len() > 0 {
            out.append("Parameters:\n");
            let n = self.parameter_values.len();
            let mut i: usize = 0;
            let ghost base = out@;
            assert(pv.subrange(0, 0) =~= Seq::<(Seq<char>, Seq<char>)>::empty());
            assert(base + param_decls_text(pv.subrange(0, 0)) =~= base);
            while i < n
                invariant
                    n == self.parameter_values@.len(),
                    pv == pair_views(self.parameter_values@),
                    i <= n,
                    out@ == base + param_decls_text(pv.subrange(0, i as int)),
                decreases n - i,
            {
                out.append("    ");
                out.append(self.parameter_values[i].0.as_str());
                out.append(":\n        Type: String\n");
                proof {
                    let upto = pv.subrange(0, i + 1);
                    assert(upto.drop_last() =~= pv.subrange(0, i as int));
                    assert(upto.last() == pv[i as int]);
                    assert(out@ =~= base + param_decls_text(upto));
                }
                i = i + 1;
            }
            assert(pv.subrange(0, n as int) =~= pv);
        } else {
            assert(head + Seq::<char>::empty() =~= head);
        }
        out.append("Resources:\n");
        push_lines(&mut out, &self.resources);
        out
    }
}

} // verus!
