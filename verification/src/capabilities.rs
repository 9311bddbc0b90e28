use vstd::prelude::*;
use vstd::string::*;

use crate::module_loading::{deps_view, DepV, DependencyTypeName, HiraModule2};
use crate::shared_files::{first_module, HiraConfig};
use crate::level0::{entries_view, runtime_pairs, L0AppendFile, L0RuntimeCreator, RuntimeData, SharedOutputEntry};
use crate::shared_files::{first_path_name, grouped, merge_files, out_files_view, outside_dir_message, same_but_shared_files, sorted_files, string_pairs, to_map_entry, written_files};
use crate::text::{
    concat3, debug_str, debug_str_text, split_once, split_once_spec, str_eq, strings_view,
    to_string,
};

verus! {

// ---------------------------------------------------------------- the dependency walk

/// The modules met by a depth-first walk from the named module: each module dependency of
/// its config function, followed by the walk from that dependency. Chains are followed at
/// most `depth` modules deep.
pub open spec fn dependency_walk(mods: Seq<HiraModule2>, name: Seq<char>, depth: nat) -> Seq<
    Seq<char>,
>
    decreases depth, 0nat,
{
    if depth == 0 {
        Seq::empty()
    } else {
        match first_module(mods, name) {
            None => Seq::empty(),
            Some(i) => if 0 <= i < mods.len() {
                dependency_list_walk(
                    mods,
                    deps_view(mods[i].compile_dependencies@),
                    (depth - 1) as nat,
                )
            } else {
                Seq::empty()
            },
        }
    }
}

/// The walk over a list of dependencies: each module dependency, followed by the walk
/// from it; library dependencies are passed over.
pub open spec fn dependency_list_walk(mods: Seq<HiraModule2>, deps: Seq<DepV>, depth: nat) -> Seq<
    Seq<char>,
>
    decreases depth, deps.len(),
{
    if deps.len() == 0 {
        Seq::empty()
    } else {
        dependency_list_walk(mods, deps.drop_last(), depth) + match deps.last() {
            DepV::Mod(n) => seq![n] + dependency_walk(mods, n, depth),
            DepV::Lib(_) => Seq::empty(),
        }
    }
}

fn walk_into(conf: &HiraConfig, name: &str, depth: usize, out: &mut Vec<String>)
    ensures
        strings_view(final(out)@) == strings_view(old(out)@) + dependency_walk(
            conf.modules2@,
            name@,
            depth as nat,
        ),
    decreases depth,
{
    let ghost start = strings_view(out@);
    if depth == 0 {
        assert(start + Seq::<Seq<char>>::empty() =~= start);
        return ;
    }
    proof {
        lemma_first_module(conf.modules2@, name@);
    }
    match conf.get_mod2(name) {
        None => {
            assert(start + Seq::<Seq<char>>::empty() =~= start);
        },
        Some(m) => {
            let ghost deps = deps_view(m.compile_dependencies@);
            let n = m.compile_dependencies.len();
            let mut k: usize = 0;
            assert(deps.subrange(0, 0) =~= Seq::<DepV>::empty());
            assert(start + Seq::<Seq<char>>::empty() =~= start);
            while k < n
                invariant
                    n == m.compile_dependencies@.len(),
                    deps == deps_view(m.compile_dependencies@),
                    0 < depth,
                    k <= n,
                    strings_view(out@) == start + dependency_list_walk(
                        conf.modules2@,
                        deps.subrange(0, k as int),
                        (depth - 1) as nat,
                    ),
                decreases n - k,
            {
                let ghost before = strings_view(out@);
                let ghost sub = deps.subrange(0, k + 1);
                assert(sub.drop_last() =~= deps.subrange(0, k as int));
                assert(sub.last() == deps[k as int]);
                match &m.compile_dependencies[k] {
                    DependencyTypeName::Mod1Or2(d) => {
                        out.push(d.clone());
                        assert(strings_view(out@) =~= before.push(d@));
                        walk_into(conf, d.as_str(), depth - 1, out);
                        assert(before.push(d@) + dependency_walk(
                            conf.modules2@,
                            d@,
                            (depth - 1) as nat,
                        ) =~= before + (seq![d@] + dependency_walk(
                            conf.modules2@,
                            d@,
                            (depth - 1) as nat,
                        )));
                    },
                    DependencyTypeName::Library(_) => {
                        assert(before + Seq::<Seq<char>>::empty() =~= before);
                    },
                }
                k = k + 1;
            }
            assert(deps.subrange(0, n as int) =~= deps);
        },
    }
}

/// The modules that the level-3 module builds on: the level-2 module it depends on, then
/// the walk from it, as deep as there are modules.
pub open spec fn lvl3_dependency_names(mods: Seq<HiraModule2>, module: HiraModule2) -> Seq<
    Seq<char>,
> {
    match module.lvl3_module_depends_on {
        Some(d) => seq![d@] + dependency_walk(mods, d@, mods.len()),
        None => Seq::empty(),
    }
}

/// The modules that a level-3 module builds on (see `lvl3_dependency_names`). A chain of
/// dependencies is followed as many modules deep as there are, which is every chain of a
/// graph without cycles.
pub fn visit_lvl3_dependency_names(conf: &HiraConfig, module: &HiraModule2) -> (r: Vec<String>)
    ensures
        strings_view(r@) == lvl3_dependency_names(conf.modules2@, *module),
{
    let mut out: Vec<String> = Vec::new();
    match &module.lvl3_module_depends_on {
        Some(d) => {
            out.push(d.clone());
            let ghost first = strings_view(out@);
            assert(first =~= seq![d@]);
            walk_into(conf, d.as_str(), conf.modules2.len(), &mut out);
        },
        None => {
            assert(strings_view(out@) =~= Seq::<Seq<char>>::empty());
        },
    }
    out
}

// ---------------------------------------------------------------- capabilities

/// The parameters that a module gives a capability, if it names it.
pub open spec fn capability_params_of(m: HiraModule2, cap: Seq<char>) -> Option<Seq<Seq<char>>> {
    let c = m.capability_params@;
    if exists|i: int| 0 <= i < c.len() && c[i].0@ == cap {
        let i = choose|i: int|
            0 <= i < c.len() && c[i].0@ == cap && forall|j: int| 0 <= j < i ==> c[j].0@ != cap;
        Some(strings_view(c[i].1@))
    } else {
        None
    }
}

impl HiraModule2 {
    /// The parameters the module gives the capability, if it names it.
    pub fn get_capability_params(&self, capability_name: &str) -> (r: Option<&Vec<String>>)
        ensures
            match capability_params_of(*self, capability_name@) {
                Some(p) => r matches Some(v) && strings_view(v@) == p,
                None => r is None,
            },
    {
        let n = self.capability_params.len();
        let mut i: usize = 0;
        while i < n
            invariant
                n == self.capability_params@.len(),
                i <= n,
                forall|j: int| 0 <= j < i ==> self.capability_params@[j].0@ != capability_name@,
            decreases n - i,
        {
            if str_eq(self.capability_params[i].0.as_str(), capability_name) {
                proof {
                    let c = self.capability_params@;
                    let k = choose|k: int|
                        0 <= k < c.len() && c[k].0@ == capability_name@ && forall|j: int|
                            0 <= j < k ==> c[j].0@ != capability_name@;
                    if k < i {
                    } else if k > i {
                        assert(c[i as int].0@ == capability_name@);
                    }
                    assert(k == i);
                }
                return Some(&self.capability_params[i].1);
            }
            i = i + 1;
        }
        None
    }
}

pub open spec fn pairs_view(v: Seq<(String, String)>) -> Seq<(Seq<char>, Seq<char>)> {
    Seq::new(v.len(), |i: int| (v[i].0@, v[i].1@))
}

/// The grants of a capability by one module: (module, parameter) for each parameter it
/// gives the capability.
pub open spec fn module_grants(mods: Seq<HiraModule2>, dep: Seq<char>, cap: Seq<char>) -> Seq<
    (Seq<char>, Seq<char>),
> {
    match first_module(mods, dep) {
        Some(i) => if 0 <= i < mods.len() {
            match capability_params_of(mods[i], cap) {
                Some(ps) => Seq::new(ps.len(), |k: int| (dep, ps[k])),
                None => Seq::empty(),
            }
        } else {
            Seq::empty()
        },
        None => Seq::empty(),
    }
}

/// The grants of a capability by the named modules, in the order of the names.
pub open spec fn grants_of(mods: Seq<HiraModule2>, names: Seq<Seq<char>>, cap: Seq<char>) -> Seq<
    (Seq<char>, Seq<char>),
>
    decreases names.len(),
{
    if names.len() == 0 {
        Seq::empty()
    } else {
        grants_of(mods, names.drop_last(), cap) + module_grants(mods, names.last(), cap)
    }
}

/// The place that `first_module` gives is a module of that name.
pub proof fn lemma_first_module(mods: Seq<HiraModule2>, name: Seq<char>)
    ensures
        first_module(mods, name) matches Some(i) ==> 0 <= i < mods.len() && mods[i].name@ == name,
{
    if exists|i: int| 0 <= i < mods.len() && mods[i].name@ == name {
        let i = choose|i: int| 0 <= i < mods.len() && mods[i].name@ == name;
        lemma_first_exists(mods, name, i);
    }
}

proof fn lemma_first_exists(mods: Seq<HiraModule2>, name: Seq<char>, i: int)
    requires
        0 <= i < mods.len(),
        mods[i].name@ == name,
    ensures
        exists|k: int|
            0 <= k < mods.len() && mods[k].name@ == name && forall|j: int|
                0 <= j < k ==> mods[j].name@ != name,
    decreases i,
{
    if exists|j: int| 0 <= j < i && mods[j].name@ == name {
        let j = choose|j: int| 0 <= j < i && mods[j].name@ == name;
        lemma_first_exists(mods, name, j);
    } else {
        assert(forall|j: int| 0 <= j < i ==> mods[j].name@ != name);
    }
}

#[verifier::spinoff_prover]
#[verifier::rlimit(40)]
fn push_module_grants(conf: &HiraConfig, dep: &str, capability_name: &str, out: &mut Vec<(String, String)>)
    ensures
        pairs_view(final(out)@) == pairs_view(old(out)@) + module_grants(
            conf.modules2@,
            dep@,
            capability_name@,
        ),
{
    let ghost before = pairs_view(out@);
    proof {
        lemma_first_module(conf.modules2@, dep@);
    }
    match conf.get_mod2(dep) {
        Some(m) => {
            match m.get_capability_params(capability_name) {
                Some(params) => {
                    let ghost ps = strings_view(params@);
                    let pn = params.len();
                    let mut k: usize = 0;
                    assert(before + Seq::new(0, |q: int| (dep@, ps[q])) =~= before);
                    while k < pn
                        invariant
                            pn == params@.len(),
                            ps == strings_view(params@),
                            k <= pn,
                            pairs_view(out@) == before + Seq::new(k as nat, |q: int| (dep@, ps[q])),
                        decreases pn - k,
                    {
                        let ghost b2 = pairs_view(out@);
                        out.push((to_string(dep), params[k].clone()));
                        assert(pairs_view(out@) =~= b2.push((dep@, ps[k as int])));
                        assert(before + Seq::new((k + 1) as nat, |q: int| (dep@, ps[q])) =~= b2.push(
                            (dep@, ps[k as int]),
                        ));
                        k = k + 1;
                    }
                },
                None => {
                    assert(before + Seq::<(Seq<char>, Seq<char>)>::empty() =~= before);
                },
            }
        },
        None => {
            assert(before + Seq::<(Seq<char>, Seq<char>)>::empty() =~= before);
        },
    }
}

/// The grants of a capability by the named modules (see `grants_of`).
pub fn capability_grants(conf: &HiraConfig, names: &Vec<String>, capability_name: &str) -> (r: Vec<
    (String, String),
>)
    ensures
        pairs_view(r@) == grants_of(conf.modules2@, strings_view(names@), capability_name@),
{
    let ghost mods = conf.modules2@;
    let ghost all = strings_view(names@);
    let mut out: Vec<(String, String)> = Vec::new();
    let n = names.len();
    let mut i: usize = 0;
    assert(pairs_view(out@) =~= grants_of(mods, all.subrange(0, 0), capability_name@));
    while i < n
        invariant
            n == names@.len(),
            all == strings_view(names@),
            mods == conf.modules2@,
            i <= n,
            pairs_view(out@) == grants_of(mods, all.subrange(0, i as int), capability_name@),
        decreases n - i,
    {
        let ghost next = all.subrange(0, i + 1);
        assert(next.drop_last() =~= all.subrange(0, i as int));
        assert(next.last() == names@[i as int]@);
        push_module_grants(conf, names[i].as_str(), capability_name, &mut out);
        i = i + 1;
    }
    assert(all.subrange(0, n as int) =~= all);
    out
}

// ---------------------------------------------------------------- checks of capabilities

/// Whether the module has any grant.
pub open spec fn granted_to(grants: Seq<(Seq<char>, Seq<char>)>, who: Seq<char>) -> bool {
    exists|q: int| 0 <= q < grants.len() && grants[q].0 == who
}

fn has_grant(grants: &Vec<(String, String)>, who: &str) -> (r: bool)
    ensures
        r == granted_to(pairs_view(grants@), who@),
{
    let n = grants.len();
    let mut i: usize = 0;
    while i < n
        invariant
            n == grants@.len(),
            i <= n,
            forall|j: int| 0 <= j < i ==> pairs_view(grants@)[j].0 != who@,
        decreases n - i,
    {
        if str_eq(grants[i].0.as_str(), who) {
            assert(pairs_view(grants@)[i as int].0 == who@);
            return true;
        }
        i = i + 1;
    }
    false
}

fn has_grant_pair(grants: &Vec<(String, String)>, who: &str, param: &str) -> (r: bool)
    ensures
        r == pairs_view(grants@).contains((who@, param@)),
{
    let n = grants.len();
    let mut i: usize = 0;
    while i < n
        invariant
            n == grants@.len(),
            i <= n,
            forall|j: int| 0 <= j < i ==> pairs_view(grants@)[j] != (who@, param@),
        decreases n - i,
    {
        if str_eq(grants[i].0.as_str(), who) && str_eq(grants[i].1.as_str(), param) {
            assert(pairs_view(grants@)[i as int] == (who@, param@));
            return true;
        }
        i = i + 1;
    }
    false
}

/// The refusal of a runtime line whose module has no `RUNTIME` grant.
pub open spec fn runtime_refusal(creator: Seq<char>, runtime_name: Seq<char>) -> Seq<char> {
    "Module '"@ + creator + "' requested to use runtime "@ + runtime_name
        + " but no RUNTIME capability was found"@
}

/// (runtime, module) for each line added to a runtime, in order.
pub open spec fn runtime_line_owners(
    rs: Seq<(Seq<char>, (Seq<(Seq<char>, Seq<char>, bool)>, (Seq<char>, Seq<char>, Seq<char>)))>,
) -> Seq<(Seq<char>, Seq<char>)>
    decreases rs.len(),
{
    if rs.len() == 0 {
        Seq::empty()
    } else {
        let last = rs.last();
        runtime_line_owners(rs.drop_last()) + Seq::new(
            last.1.0.len(),
            |k: int| (last.0, last.1.0[k].0),
        )
    }
}

/// The first (runtime, module) whose module has no grant.
pub open spec fn first_ungranted(
    owners: Seq<(Seq<char>, Seq<char>)>,
    grants: Seq<(Seq<char>, Seq<char>)>,
) -> Option<(Seq<char>, Seq<char>)>
    decreases owners.len(),
{
    if owners.len() == 0 {
        None
    } else {
        match first_ungranted(owners.drop_last(), grants) {
            Some(x) => Some(x),
            None => if granted_to(grants, owners.last().1) {
                None
            } else {
                Some(owners.last())
            },
        }
    }
}

proof fn lemma_first_ungranted_append(
    a: Seq<(Seq<char>, Seq<char>)>,
    b: Seq<(Seq<char>, Seq<char>)>,
    grants: Seq<(Seq<char>, Seq<char>)>,
)
    ensures
        first_ungranted(a + b, grants) == match first_ungranted(a, grants) {
            Some(x) => Some(x),
            None => first_ungranted(b, grants),
        },
    decreases b.len(),
{
    if b.len() == 0 {
        assert(a + b =~= a);
    } else {
        assert((a + b).drop_last() =~= a + b.drop_last());
        lemma_first_ungranted_append(a, b.drop_last(), grants);
    }
}

/// Checks that every line added to a runtime comes from a module with a `RUNTIME` grant;
/// the first line, in order, that does not is refused.
#[verifier::loop_isolation(false)]
pub fn check_runtime_lines(runtimer: &L0RuntimeCreator, grants: &Vec<(String, String)>) -> (r:
    Result<(), String>)
    ensures
        match first_ungranted(runtime_line_owners(runtime_pairs(runtimer.runtimes@)), pairs_view(grants@)) {
            Some(x) => r matches Err(m) && m@ == runtime_refusal(x.1, x.0),
            None => r is Ok,
        },
{
    let ghost rs = runtime_pairs(runtimer.runtimes@);
    let ghost g = pairs_view(grants@);
    let n = runtimer.runtimes.len();
    let mut i: usize = 0;
    assert(rs.subrange(0, 0) =~= Seq::empty());
    while i < n
        invariant
            n == runtimer.runtimes@.len(),
            rs == runtime_pairs(runtimer.runtimes@),
            g == pairs_view(grants@),
            i <= n,
            first_ungranted(runtime_line_owners(rs.subrange(0, i as int)), g) is None,
        decreases n - i,
    {
        let name = &runtimer.runtimes[i].0;
        let lines = &runtimer.runtimes[i].1.code_lines;
        let ghost done = runtime_line_owners(rs.subrange(0, i as int));
        let ghost here = Seq::new(rs[i as int].1.0.len(), |k: int| (rs[i as int].0, rs[i as int].1.0[k].0));
        let ghost upto = rs.subrange(0, i + 1);
        assert(upto.drop_last() =~= rs.subrange(0, i as int));
        assert(upto.last() == rs[i as int]);
        assert(runtime_line_owners(upto) == done + here);
        proof {
            lemma_first_ungranted_append(done, here, g);
        }
        let m = lines.len();
        let mut k: usize = 0;
        assert(here.subrange(0, 0) =~= Seq::<(Seq<char>, Seq<char>)>::empty());
        while k < m
            invariant
                m == lines@.len(),
                m == here.len(),
                forall|q: int| 0 <= q < m ==> #[trigger] here[q] == (name@, lines@[q].creator@),
                k <= m,
                first_ungranted(here.subrange(0, k as int), g) is None,
            decreases m - k,
        {
            let creator = &lines[k].creator;
            let ghost sub = here.subrange(0, k + 1);
            assert(sub.drop_last() =~= here.subrange(0, k as int));
            assert(sub.last() == here[k as int]);
            if !has_grant(grants, creator.as_str()) {
                let mut msg = concat3("Module '", creator.as_str(), "' requested to use runtime ");
                msg.append(name.as_str());
                msg.append(" but no RUNTIME capability was found");
                proof {
                    lemma_first_ungranted_append(sub, here.subrange(k + 1, m as int), g);
                    assert(sub + here.subrange(k + 1, m as int) =~= here);
                    lemma_first_ungranted_append(
                        runtime_line_owners(upto),
                        runtime_line_owners(rs.subrange(i + 1, n as int)),
                        g,
                    );
                    lemma_owners_split(rs, i + 1);
                    assert(rs.subrange(0, n as int) =~= rs);
                }
                return Err(msg);
            }
            k = k + 1;
        }
        assert(here.subrange(0, m as int) =~= here);
        i = i + 1;
    }
    assert(rs.subrange(0, n as int) =~= rs);
    Ok(())
}

proof fn lemma_owners_split(
    rs: Seq<(Seq<char>, (Seq<(Seq<char>, Seq<char>, bool)>, (Seq<char>, Seq<char>, Seq<char>)))>,
    j: int,
)
    requires
        0 <= j <= rs.len(),
    ensures
        runtime_line_owners(rs) == runtime_line_owners(rs.subrange(0, j)) + runtime_line_owners(
            rs.subrange(j, rs.len() as int),
        ),
    decreases rs.len(),
{
    if j == rs.len() {
        assert(rs.subrange(0, j) =~= rs);
        assert(rs.subrange(j, rs.len() as int) =~= Seq::empty());
        assert(runtime_line_owners(rs) + Seq::empty() =~= runtime_line_owners(rs));
    } else {
        let d = rs.drop_last();
        lemma_owners_split(d, j);
        assert(d.subrange(0, j) =~= rs.subrange(0, j));
        let tail = rs.subrange(j, rs.len() as int);
        assert(tail.drop_last() =~= d.subrange(j, d.len() as int));
        assert(tail.last() == rs.last());
    }
}

/// The refusal of a module that writes a function with no `CODE_WRITE` grant at all.
pub open spec fn code_write_refusal(requestor: Seq<char>) -> Seq<char> {
    "Module "@ + requestor + " attempted to write a function, but no CODE_WRITE capability found"@
}

/// Checks that a module that writes functions has a `CODE_WRITE` grant.
pub fn check_code_write_grant(requestor: &str, grants: &Vec<(String, String)>) -> (r: Result<
    (),
    String,
>)
    ensures
        granted_to(pairs_view(grants@), requestor@) ==> r is Ok,
        !granted_to(pairs_view(grants@), requestor@) ==> (r matches Err(m) && m@
            == code_write_refusal(requestor@)),
{
    if has_grant(grants, requestor) {
        Ok(())
    } else {
        Err(
            concat3(
                "Module ",
                requestor,
                " attempted to write a function, but no CODE_WRITE capability found",
            ),
        )
    }
}

/// The grant that writing the named function needs: `fn_global:<name>` for a function
/// written outside the module, `fn_module:<name>` for one inside.
pub open spec fn function_write_param(kind: Seq<char>, fn_name: Seq<char>) -> Seq<char> {
    if kind == "global"@ {
        "fn_global:"@ + fn_name
    } else {
        "fn_module:"@ + fn_name
    }
}

/// The kind and the signature of a written function's key `kind|signature`.
pub fn split_write_key(key: &str) -> (r: Option<(String, String)>)
    ensures
        match split_once_spec(key@, "|"@) {
            Some(p) => r matches Some(x) && x.0@ == p.0 && x.1@ == p.1,
            None => r is None,
        },
{
    split_once(key, "|")
}

/// Checks that the module may write the function, and tells whether it goes outside the
/// module (kind `global`) rather than inside.
pub fn check_function_write(
    requestor: &str,
    kind: &str,
    fn_name: &str,
    grants: &Vec<(String, String)>,
) -> (r: Result<bool, String>)
    ensures
        ({
            let want = function_write_param(kind@, fn_name@);
            &&& pairs_view(grants@).contains((requestor@, want)) ==> r == Ok::<bool, String>(
                kind@ == "global"@,
            )
            &&& !pairs_view(grants@).contains((requestor@, want)) ==> (r matches Err(m) && m@
                == "Module "@ + requestor@ + " attempted to write global function "@ + fn_name@
                + " but no "@ + want + " capability was defined"@)
        }),
{
    let global = str_eq(kind, "global");
    let want = if global {
        concat3("fn_global:", fn_name, "")
    } else {
        concat3("fn_module:", fn_name, "")
    };
    proof {
        reveal_strlit("");
        assert("fn_global:"@ + fn_name@ + ""@ =~= "fn_global:"@ + fn_name@);
        assert("fn_module:"@ + fn_name@ + ""@ =~= "fn_module:"@ + fn_name@);
    }
    if !has_grant_pair(grants, requestor, want.as_str()) {
        let mut msg = concat3("Module ", requestor, " attempted to write global function ");
        msg.append(fn_name);
        msg.append(" but no ");
        msg.append(want.as_str());
        msg.append(" capability was defined");
        return Err(msg);
    }
    Ok(global)
}

// ---------------------------------------------------------------- files

/// The distinct parameters of the grants, in the order they first appear.
pub open spec fn distinct_params(g: Seq<(Seq<char>, Seq<char>)>) -> Seq<Seq<char>>
    decreases g.len(),
{
    if g.len() == 0 {
        Seq::empty()
    } else {
        let d = distinct_params(g.drop_last());
        if d.contains(g.last().1) {
            d
        } else {
            d.push(g.last().1)
        }
    }
}

fn contains_string(v: &Vec<String>, x: &str) -> (r: bool)
    ensures
        r == strings_view(v@).contains(x@),
{
    let n = v.len();
    let mut i: usize = 0;
    while i < n
        invariant
            n == v@.len(),
            i <= n,
            forall|j: int| 0 <= j < i ==> strings_view(v@)[j] != x@,
        decreases n - i,
    {
        if str_eq(v[i].as_str(), x) {
            assert(strings_view(v@)[i as int] == x@);
            return true;
        }
        i = i + 1;
    }
    false
}

/// The files that the grants of `FILES` allow, each once, in the order of the grants.
pub fn allowed_files(grants: &Vec<(String, String)>) -> (r: Vec<String>)
    ensures
        strings_view(r@) == distinct_params(pairs_view(grants@)),
{
    let ghost g = pairs_view(grants@);
    let mut out: Vec<String> = Vec::new();
    let n = grants.len();
    let mut i: usize = 0;
    assert(strings_view(out@) =~= distinct_params(g.subrange(0, 0)));
    while i < n
        invariant
            n == grants@.len(),
            g == pairs_view(grants@),
            i <= n,
            strings_view(out@) == distinct_params(g.subrange(0, i as int)),
        decreases n - i,
    {
        let ghost sub = g.subrange(0, i + 1);
        assert(sub.drop_last() =~= g.subrange(0, i as int));
        assert(sub.last() == g[i as int]);
        let f = &grants[i].1;
        if !contains_string(&out, f.as_str()) {
            let ghost before = strings_view(out@);
            out.push(f.clone());
            assert(strings_view(out@) =~= before.push(f@));
        }
        i = i + 1;
    }
    assert(g.subrange(0, n as int) =~= g);
    out
}

/// The text that `{:?}` gives for a set of strings whose elements come in this order.
pub open spec fn debug_set_text(items: Seq<Seq<char>>) -> Seq<char> {
    "{"@ + joined_debug(items) + "}"@
}

/// The strings quoted and escaped as `{:?}` does, separated by `, `.
pub open spec fn joined_debug(items: Seq<Seq<char>>) -> Seq<char>
    decreases items.len(),
{
    if items.len() == 0 {
        Seq::empty()
    } else if items.len() == 1 {
        debug_str_text(items[0])
    } else {
        joined_debug(items.drop_last()) + ", "@ + debug_str_text(items.last())
    }
}

fn debug_set_string(items: &Vec<String>) -> (r: String)
    ensures
        r@ == debug_set_text(strings_view(items@)),
{
    let ghost v = strings_view(items@);
    let mut out = String::new();
    let n = items.len();
    let mut i: usize = 0;
    proof {
        reveal_strlit("");
    }
    assert(out@ =~= joined_debug(v.subrange(0, 0)));
    while i < n
        invariant
            n == items@.len(),
            v == strings_view(items@),
            i <= n,
            out@ == joined_debug(v.subrange(0, i as int)),
        decreases n - i,
    {
        let ghost sub = v.subrange(0, i + 1);
        assert(sub.drop_last() =~= v.subrange(0, i as int));
        assert(sub.last() == v[i as int]);
        if i > 0 {
            out.append(", ");
        }
        let d = debug_str(items[i].as_str());
        out.append(d.as_str());
        proof {
            if i == 0 {
                assert(sub.len() == 1);
                assert(sub[0] == v[0]);
                assert(Seq::<char>::empty() + d@ =~= d@);
            }
        }
        i = i + 1;
    }
    assert(v.subrange(0, n as int) =~= v);
    let mut r = to_string("{");
    r.append(out.as_str());
    r.append("}");
    r
}

/// The last entry whose file is not allowed.
pub open spec fn last_refused_file(files: Seq<Seq<char>>, allowed: Seq<Seq<char>>) -> Option<
    Seq<char>,
>
    decreases files.len(),
{
    if files.len() == 0 {
        None
    } else if !allowed.contains(files.last()) {
        Some(files.last())
    } else {
        last_refused_file(files.drop_last(), allowed)
    }
}

pub open spec fn entry_files(v: Seq<SharedOutputEntry>) -> Seq<Seq<char>> {
    Seq::new(v.len(), |i: int| v[i].filename@)
}

/// Checks that the lines given for shared files only name allowed files; the last line
/// that names another file is the one reported, with the allowed files.
pub fn check_file_writes(
    module_name: &str,
    entries: &Vec<SharedOutputEntry>,
    allowed: &Vec<String>,
) -> (r: Result<(), String>)
    ensures
        match last_refused_file(entry_files(entries@), strings_view(allowed@)) {
            Some(f) => r matches Err(m) && m@ == "Module '"@ + module_name@
                + "' had a dependency that attempted to write file "@ + f
                + ", but allowed files are only "@ + debug_set_text(strings_view(allowed@)),
            None => r is Ok,
        },
{
    let ghost files = entry_files(entries@);
    let ghost a = strings_view(allowed@);
    let mut i: usize = entries.len();
    assert(files.subrange(0, i as int) =~= files);
    while i > 0
        invariant
            i <= entries@.len(),
            files == entry_files(entries@),
            a == strings_view(allowed@),
            last_refused_file(files, a) == last_refused_file(files.subrange(0, i as int), a),
        decreases i,
    {
        let ghost sub = files.subrange(0, i as int);
        assert(sub.drop_last() =~= files.subrange(0, i - 1));
        assert(sub.last() == entries@[i - 1].filename@);
        let f = &entries[i - 1].filename;
        if !contains_string(allowed, f.as_str()) {
            let mut msg = concat3(
                "Module '",
                module_name,
                "' had a dependency that attempted to write file ",
            );
            msg.append(f.as_str());
            msg.append(", but allowed files are only ");
            let set = debug_set_string(allowed);
            msg.append(set.as_str());
            return Err(msg);
        }
        i = i - 1;
    }
    Ok(())
}

// ---------------------------------------------------------------- reading code

/// The functions that the `CODE_READ` grants ask to read, each once, in order: each
/// parameter must read `fn:<name>`.
pub open spec fn read_requests(g: Seq<(Seq<char>, Seq<char>)>) -> Result<Seq<Seq<char>>, Seq<char>>
    decreases g.len(),
{
    if g.len() == 0 {
        Ok(Seq::empty())
    } else {
        match read_requests(g.drop_last()) {
            Err(e) => Err(e),
            Ok(v) => {
                let (dep, p) = g.last();
                match split_once_spec(p, ":"@) {
                    Some(kv) => if kv.0 == "fn"@ {
                        Ok(
                            if v.contains(kv.1) {
                                v
                            } else {
                                v.push(kv.1)
                            },
                        )
                    } else {
                        Err(
                            "Module "@ + dep + " requested READ_CODE capability of an unknown type '"@
                                + kv.0 + "'"@,
                        )
                    },
                    None => Err(
                        "Module "@ + dep + " requested READ_CODE capability with an unknown syntax '"@
                            + p + "'\nExpected to find something like 'fn:function_name'"@,
                    ),
                }
            },
        }
    }
}

/// The functions whose signatures the `CODE_READ` grants ask for (see `read_requests`).
pub fn requested_functions(grants: &Vec<(String, String)>) -> (r: Result<Vec<String>, String>)
    ensures
        match read_requests(pairs_view(grants@)) {
            Ok(v) => r matches Ok(x) && strings_view(x@) == v,
            Err(e) => r matches Err(m) && m@ == e,
        },
{
    let ghost g = pairs_view(grants@);
    let mut out: Vec<String> = Vec::new();
    let n = grants.len();
    let mut i: usize = 0;
    assert(g.subrange(0, 0) =~= Seq::<(Seq<char>, Seq<char>)>::empty());
    assert(strings_view(out@) =~= Seq::<Seq<char>>::empty());
    while i < n
        invariant
            n == grants@.len(),
            g == pairs_view(grants@),
            i <= n,
            read_requests(g.subrange(0, i as int)) == Ok::<Seq<Seq<char>>, Seq<char>>(
                strings_view(out@),
            ),
        decreases n - i,
    {
        let ghost sub = g.subrange(0, i + 1);
        assert(sub.drop_last() =~= g.subrange(0, i as int));
        assert(sub.last() == g[i as int]);
        let dep = &grants[i].0;
        let p = &grants[i].1;
        match split_once(p.as_str(), ":") {
            Some((k, v)) => {
                if str_eq(k.as_str(), "fn") {
                    if !contains_string(&out, v.as_str()) {
                        let ghost before = strings_view(out@);
                        let ghost vv = v@;
                        out.push(v);
                        assert(strings_view(out@) =~= before.push(vv));
                    }
                } else {
                    let mut msg = concat3(
                        "Module ",
                        dep.as_str(),
                        " requested READ_CODE capability of an unknown type '",
                    );
                    msg.append(k.as_str());
                    msg.append("'");
                    proof {
                        lemma_read_requests_err(g, i as int);
                    }
                    return Err(msg);
                }
            },
            None => {
                let mut msg = concat3(
                    "Module ",
                    dep.as_str(),
                    " requested READ_CODE capability with an unknown syntax '",
                );
                msg.append(p.as_str());
                msg.append("'\nExpected to find something like 'fn:function_name'");
                proof {
                    lemma_read_requests_err(g, i as int);
                }
                return Err(msg);
            },
        }
        i = i + 1;
    }
    assert(g.subrange(0, n as int) =~= g);
    Ok(out)
}

proof fn lemma_read_requests_err(g: Seq<(Seq<char>, Seq<char>)>, i: int)
    requires
        0 <= i < g.len(),
        read_requests(g.subrange(0, i + 1)) is Err,
    ensures
        read_requests(g) == read_requests(g.subrange(0, i + 1)),
    decreases g.len(),
{
    if i + 1 < g.len() {
        let d = g.drop_last();
        assert(d.subrange(0, i + 1) =~= g.subrange(0, i + 1));
        lemma_read_requests_err(d, i);
    } else {
        assert(g.subrange(0, i + 1) =~= g);
    }
}

impl L0AppendFile {
    /// Hands the lines that modules asked to append to files over to the configuration:
    /// every file written must be one that the `FILES` grants of the modules the level-3
    /// module builds on allow (see `check_file_writes`); the lines are grouped by file and
    /// label and merged into the shared files (see `HiraConfig::output_shared_files`), which
    /// gives the files to write. The pending lines are taken either way.
    pub fn apply_changes(&mut self, conf: &mut HiraConfig, module: &HiraModule2) -> (r: Result<
        Vec<(String, String)>,
        String,
    >)
        ensures
            final(self).shared_output_data@.len() == 0,
            final(self).current_module_name == old(self).current_module_name,
            ({
                let allowed = distinct_params(
                    grants_of(old(conf).modules2@, lvl3_dependency_names(old(conf).modules2@, *module), "FILES"@),
                );
                let g = grouped(entries_view(old(self).shared_output_data@));
                let merged = merge_files(out_files_view(old(conf).shared_file_data@), g);
                match last_refused_file(entry_files(old(self).shared_output_data@), allowed) {
                    Some(f) => r matches Err(m) && m@ == "Module '"@ + module.name@
                        + "' had a dependency that attempted to write file "@ + f
                        + ", but allowed files are only "@ + debug_set_text(allowed)
                        && *final(conf) == *old(conf),
                    None => match first_path_name(g) {
                        Some(k) => r matches Err(msg) && msg@ == outside_dir_message(module.name@, g[k].0)
                            && out_files_view(final(conf).shared_file_data@) == merge_files(
                            out_files_view(old(conf).shared_file_data@),
                            g.subrange(0, k),
                        ) && same_but_shared_files(*final(conf), *old(conf)),
                        None => r matches Ok(out) && string_pairs(out@) == (if old(conf).should_do_file_ops {
                            written_files(old(conf).gen_directory@, merged)
                        } else {
                            Seq::empty()
                        }) && out_files_view(final(conf).shared_file_data@) == (if old(
                            conf,
                        ).should_do_file_ops {
                            sorted_files(merged)
                        } else {
                            merged
                        }) && same_but_shared_files(*final(conf), *old(conf)),
                    },
                }
            }),
    {
        let deps = visit_lvl3_dependency_names(conf, module);
        let grants = capability_grants(conf, &deps, "FILES");
        let allowed = allowed_files(&grants);
        let mut data: Vec<SharedOutputEntry> = Vec::new();
        std::mem::swap(&mut data, &mut self.shared_output_data);
        match check_file_writes(module.name.as_str(), &data, &allowed) {
            Ok(()) => {},
            Err(e) => {
                return Err(e);
            },
        }
        let mapped = to_map_entry(data);
        conf.output_shared_files(module.name.as_str(), mapped)
    }
}

impl L0RuntimeCreator {
    /// Takes the lines that modules added to runtimes, each runtime with its lines, after
    /// checking that every module that added a line has a `RUNTIME` grant among the modules
    /// the level-3 module builds on (see `check_runtime_lines`). The pending runtimes are
    /// taken either way.
    pub fn apply_changes(&mut self, conf: &HiraConfig, module: &HiraModule2) -> (r: Result<
        Vec<(String, RuntimeData)>,
        String,
    >)
        ensures
            final(self).runtimes@.len() == 0,
            final(self).current_module_name == old(self).current_module_name,
            ({
                let g = grants_of(conf.modules2@, lvl3_dependency_names(conf.modules2@, *module), "RUNTIME"@);
                match first_ungranted(runtime_line_owners(runtime_pairs(old(self).runtimes@)), g) {
                    Some(x) => r matches Err(m) && m@ == runtime_refusal(x.1, x.0),
                    None => r matches Ok(v) && v@ == old(self).runtimes@,
                }
            }),
    {
        let deps = visit_lvl3_dependency_names(conf, module);
        let grants = capability_grants(conf, &deps, "RUNTIME");
        let checked = check_runtime_lines(self, &grants);
        let mut taken: Vec<(String, RuntimeData)> = Vec::new();
        std::mem::swap(&mut taken, &mut self.runtimes);
        match checked {
            Ok(()) => Ok(taken),
            Err(e) => Err(e),
        }
    }
}

} // verus!
