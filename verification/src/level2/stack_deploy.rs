use vstd::prelude::*;
use vstd::string::*;

use crate::capabilities::pairs_view;
use crate::kv::StrMap;
use crate::level2::aws_cfn_stack::{complete_count, count_complete, resource_ids_view, ModResourceCounts};
use crate::shared_files::{insert_sorted, key_le, law_sorted_labels_in_order, sort_by_key, sorted_by_key, str_le};
use crate::text::{concat3, contains_run, decimal, push_decimal, seq_contains_run, str_eq, strings_view, to_string};

verus! {

// ---------------------------------------------------------------- stack status

/// Where a stack is in its deployment.
#[derive(Debug, PartialEq, Eq, Structural, Clone, Copy)]
pub enum StackPhase {
    /// Deployed (or deleted): the outputs can be read.
    Done,
    /// Still changing: ask again later.
    InProgress,
}

/// The statuses of a stack that end a deployment well.
pub open spec fn is_done_status(s: Seq<char>) -> bool {
    ||| s == "DELETE_COMPLETE"@
    ||| s == "CREATE_COMPLETE"@
    ||| s == "UPDATE_COMPLETE"@
    ||| s == "UPDATE_ROLLBACK_COMPLETE"@
    ||| s == "IMPORT_COMPLETE"@
    ||| s == "IMPORT_ROLLBACK_COMPLETE"@
}

/// The statuses of a stack that is still changing.
pub open spec fn is_progress_status(s: Seq<char>) -> bool {
    ||| s == "CREATE_IN_PROGRESS"@
    ||| s == "DELETE_IN_PROGRESS"@
    ||| s == "IMPORT_IN_PROGRESS"@
    ||| s == "IMPORT_ROLLBACK_IN_PROGRESS"@
    ||| s == "REVIEW_IN_PROGRESS"@
    ||| s == "ROLLBACK_IN_PROGRESS"@
    ||| s == "UPDATE_COMPLETE_CLEANUP_IN_PROGRESS"@
    ||| s == "UPDATE_IN_PROGRESS"@
    ||| s == "UPDATE_ROLLBACK_COMPLETE_CLEANUP_IN_PROGRESS"@
    ||| s == "UPDATE_ROLLBACK_IN_PROGRESS"@
}

pub open spec fn opt_text(o: Option<&str>) -> Option<Seq<char>> {
    match o {
        Some(s) => Some(s@),
        None => None,
    }
}

/// What a description of the stack tells: a description of its first stack, with its
/// status and the reason of a failure, or the text of the error of the request.
pub open spec fn describe_outcome(
    name: Seq<char>,
    first_stack: Option<(Option<Seq<char>>, Option<Seq<char>>)>,
    request_error: Option<Seq<char>>,
) -> Result<StackPhase, Seq<char>> {
    match request_error {
        Some(e) => if seq_contains_run(e, "Stack with id "@ + name + " does not exist"@) {
            Ok(StackPhase::InProgress)
        } else {
            Err(e)
        },
        None => match first_stack {
            None => Err("Stack "@ + name + " not found"@),
            Some((status, reason)) => match status {
                None => Err("Stack "@ + name + " not found"@),
                Some(s) => if is_done_status(s) {
                    Ok(StackPhase::Done)
                } else if is_progress_status(s) {
                    Ok(StackPhase::InProgress)
                } else {
                    Err(
                        match reason {
                            Some(r) => r,
                            None => "Failed to get stack failure reason"@,
                        },
                    )
                },
            },
        },
    }
}

fn is_done_status_exec(s: &str) -> (r: bool)
    ensures
        r == is_done_status(s@),
{
    str_eq(s, "DELETE_COMPLETE") || str_eq(s, "CREATE_COMPLETE") || str_eq(s, "UPDATE_COMPLETE")
        || str_eq(s, "UPDATE_ROLLBACK_COMPLETE") || str_eq(s, "IMPORT_COMPLETE") || str_eq(
        s,
        "IMPORT_ROLLBACK_COMPLETE",
    )
}

fn is_progress_status_exec(s: &str) -> (r: bool)
    ensures
        r == is_progress_status(s@),
{
    str_eq(s, "CREATE_IN_PROGRESS") || str_eq(s, "DELETE_IN_PROGRESS") || str_eq(
        s,
        "IMPORT_IN_PROGRESS",
    ) || str_eq(s, "IMPORT_ROLLBACK_IN_PROGRESS") || str_eq(s, "REVIEW_IN_PROGRESS") || str_eq(
        s,
        "ROLLBACK_IN_PROGRESS",
    ) || str_eq(s, "UPDATE_COMPLETE_CLEANUP_IN_PROGRESS") || str_eq(s, "UPDATE_IN_PROGRESS")
        || str_eq(s, "UPDATE_ROLLBACK_COMPLETE_CLEANUP_IN_PROGRESS") || str_eq(
        s,
        "UPDATE_ROLLBACK_IN_PROGRESS",
    )
}

/// Decides where the stack is from a description of it (see `describe_outcome`).
pub fn describe_stack(
    name: &str,
    first_stack: Option<(Option<&str>, Option<&str>)>,
    request_error: Option<&str>,
) -> (r: Result<StackPhase, String>)
    ensures
        match describe_outcome(
            name@,
            match first_stack {
                Some(p) => Some((opt_text(p.0), opt_text(p.1))),
                None => None,
            },
            opt_text(request_error),
        ) {
            Ok(p) => r == Ok::<StackPhase, String>(p),
            Err(m) => r matches Err(e) && e@ == m,
        },
{
    match request_error {
        Some(e) => {
            let dne = concat3("Stack with id ", name, " does not exist");
            if contains_run(e, dne.as_str()) {
                Ok(StackPhase::InProgress)
            } else {
                Err(to_string(e))
            }
        },
        None => match first_stack {
            None => Err(concat3("Stack ", name, " not found")),
            Some((status, reason)) => match status {
                None => Err(concat3("Stack ", name, " not found")),
                Some(s) => if is_done_status_exec(s) {
                    Ok(StackPhase::Done)
                } else if is_progress_status_exec(s) {
                    Ok(StackPhase::InProgress)
                } else {
                    match reason {
                        Some(x) => Err(to_string(x)),
                        None => Err(to_string("Failed to get stack failure reason")),
                    }
                },
            },
        },
    }
}

/// Whether the stack exists, from the error of a request to describe it, if any: an error
/// that says it does not exist means it does not.
pub fn does_stack_exist(request_error: Option<&str>) -> (r: Result<bool, String>)
    ensures
        request_error is None ==> r == Ok::<bool, String>(true),
        request_error matches Some(e) ==> if seq_contains_run(e@, "does not exist"@) {
            r == Ok::<bool, String>(false)
        } else {
            r matches Err(x) && x@ == e@
        },
{
    match request_error {
        None => Ok(true),
        Some(e) => if contains_run(e, "does not exist") {
            Ok(false)
        } else {
            Err(to_string(e))
        },
    }
}

/// What an update of the stack gives, from the text of its error, if any: an update with
/// nothing to change is fine.
pub fn update_outcome(error_text: Option<&str>) -> (r: Result<(), String>)
    ensures
        error_text is None ==> r is Ok,
        error_text matches Some(e) ==> if seq_contains_run(
            "Failed to update:\n"@ + e@,
            "No updates are to be performed"@,
        ) {
            r is Ok
        } else {
            r matches Err(x) && x@ == "Failed to update:\n"@ + e@
        },
{
    match error_text {
        None => Ok(()),
        Some(e) => {
            let full = concat3("Failed to update:\n", e, "");
            proof {
                reveal_strlit("");
                assert("Failed to update:\n"@ + e@ + ""@ =~= "Failed to update:\n"@ + e@);
            }
            if contains_run(full.as_str(), "No updates are to be performed") {
                Ok(())
            } else {
                Err(full)
            }
        },
    }
}

// ---------------------------------------------------------------- progress

/// The resources of one module in a stack being deployed, and what was printed of them.
pub struct ModProgress {
    pub mod_name: String,
    pub counts: ModResourceCounts,
    pub resource_ids: Vec<(bool, String)>,
}

/// The progress line of a module (`name`, two tabs, created/total).
pub open spec fn progress_line(name: Seq<char>, done: nat, total: nat) -> Seq<char> {
    name + "\t\t"@ + decimal(done) + "/"@ + decimal(total)
}

pub open spec fn counts_of(v: Seq<ModProgress>) -> Seq<(u32, bool)> {
    Seq::new(v.len(), |i: int| (v[i].counts.complete_count, v[i].counts.has_changes))
}

/// The modules of the stack, by name in the order of their first template, each with
/// the names of its resources; a module starts with nothing created and a change to print.
pub open spec fn grouped_modules(t: Seq<(Seq<char>, Seq<Seq<char>>)>) -> Seq<(Seq<char>, Seq<Seq<char>>)>
    decreases t.len(),
{
    if t.len() == 0 {
        Seq::empty()
    } else {
        add_module_resources(grouped_modules(t.drop_last()), t.last().0, t.last().1)
    }
}

/// The module's resources added to the grouping: after the module's earlier ones, or as a
/// new module at the end when it has some and was not there.
pub open spec fn add_module_resources(
    g: Seq<(Seq<char>, Seq<Seq<char>>)>,
    name: Seq<char>,
    ids: Seq<Seq<char>>,
) -> Seq<(Seq<char>, Seq<Seq<char>>)> {
    if exists|i: int| 0 <= i < g.len() && g[i].0 == name {
        let i = choose|i: int| 0 <= i < g.len() && g[i].0 == name;
        g.update(i, (name, g[i].1 + ids))
    } else if ids.len() == 0 {
        g
    } else {
        g.push((name, ids))
    }
}

pub open spec fn progress_view(v: Seq<ModProgress>) -> Seq<(Seq<char>, Seq<Seq<char>>)> {
    Seq::new(v.len(), |i: int| (v[i].mod_name@, resource_ids_view(v[i].resource_ids@)))
}

pub open spec fn names_distinct(g: Seq<(Seq<char>, Seq<Seq<char>>)>) -> bool {
    forall|i: int, j: int| 0 <= i < j < g.len() ==> g[i].0 != g[j].0
}

fn find_module(v: &Vec<ModProgress>, name: &str) -> (k: usize)
    ensures
        k <= v@.len(),
        k < v@.len() ==> v@[k as int].mod_name@ == name@,
        k == v@.len() ==> forall|q: int| 0 <= q < v@.len() ==> v@[q].mod_name@ != name@,
{
    let m = v.len();
    let mut k: usize = 0;
    while k < m
        invariant
            m == v@.len(),
            k <= m,
            forall|q: int| 0 <= q < k ==> v@[q].mod_name@ != name@,
        decreases m - k,
    {
        if str_eq(v[k].mod_name.as_str(), name) {
            return k;
        }
        k = k + 1;
    }
    k
}

fn unmarked_ids(ids: &Vec<String>) -> (r: Vec<(bool, String)>)
    ensures
        resource_ids_view(r@) == strings_view(ids@),
{
    let mut out: Vec<(bool, String)> = Vec::new();
    let n = ids.len();
    let mut i: usize = 0;
    while i < n
        invariant
            n == ids@.len(),
            i <= n,
            resource_ids_view(out@) == strings_view(ids@).subrange(0, i as int),
        decreases n - i,
    {
        let ghost b = resource_ids_view(out@);
        let c = ids[i].clone();
        out.push((false, c));
        assert(resource_ids_view(out@) =~= b.push(strings_view(ids@)[i as int]));
        assert(strings_view(ids@).subrange(0, i + 1) =~= strings_view(ids@).subrange(0, i as int).push(
            strings_view(ids@)[i as int],
        ));
        i = i + 1;
    }
    assert(strings_view(ids@).subrange(0, n as int) =~= strings_view(ids@));
    out
}

/// Groups the resources of the templates of a stack by module (see `grouped_modules`).
pub fn module_progress(templates: &Vec<(String, Vec<String>)>) -> (r: Vec<ModProgress>)
    ensures
        progress_view(r@) == grouped_modules(
            Seq::new(templates@.len(), |i: int| (templates@[i].0@, strings_view(templates@[i].1@))),
        ),
        forall|i: int|
            0 <= i < r@.len() ==> (#[trigger] r@[i]).counts.complete_count == 0
                && r@[i].counts.has_changes,
{
    let ghost t = Seq::new(
        templates@.len(),
        |i: int| (templates@[i].0@, strings_view(templates@[i].1@)),
    );
    let mut out: Vec<ModProgress> = Vec::new();
    let n = templates.len();
    let mut i: usize = 0;
    assert(progress_view(out@) =~= grouped_modules(t.subrange(0, 0)));
    while i < n
        invariant
            n == templates@.len(),
            t == Seq::new(
                templates@.len(),
                |i: int| (templates@[i].0@, strings_view(templates@[i].1@)),
            ),
            i <= n,
            progress_view(out@) == grouped_modules(t.subrange(0, i as int)),
            names_distinct(progress_view(out@)),
            forall|k: int|
                0 <= k < out@.len() ==> (#[trigger] out@[k]).counts.complete_count == 0
                    && out@[k].counts.has_changes,
        decreases n - i,
    {
        let ghost sub = t.subrange(0, i + 1);
        assert(sub.drop_last() =~= t.subrange(0, i as int));
        assert(sub.last() == t[i as int]);
        let name = &templates[i].0;
        let ids = &templates[i].1;
        let ghost g = progress_view(out@);
        let k = find_module(&out, name.as_str());
        let mut more = unmarked_ids(ids);
        if k < out.len() {
            let ghost pre = out@;
            let mut entry = out.remove(k);
            let ghost before_ids = resource_ids_view(entry.resource_ids@);
            entry.resource_ids.append(&mut more);
            assert(resource_ids_view(entry.resource_ids@) =~= before_ids + strings_view(ids@));
            let ghost e2 = entry;
            out.insert(k, entry);
            proof {
                assert(out@ =~= pre.update(k as int, e2));
                assert(g[k as int].0 == name@);
                let c = choose|q: int| 0 <= q < g.len() && g[q].0 == name@;
                assert(c == k);
                assert(progress_view(out@) =~= g.update(k as int, (name@, g[k as int].1 + strings_view(ids@))));
            }
        } else if ids.len() > 0 {
            out.push(ModProgress {
                mod_name: name.clone(),
                counts: ModResourceCounts { complete_count: 0, has_changes: true },
                resource_ids: more,
            });
            assert(progress_view(out@) =~= g.push((name@, strings_view(ids@))));
        } else {
            assert(strings_view(ids@) =~= Seq::<Seq<char>>::empty());
        }
        i = i + 1;
    }
    assert(t.subrange(0, n as int) =~= t);
    out
}

pub open spec fn total_of(m: ModProgress) -> nat {
    m.resource_ids@.len()
}

/// The lines that printing the modules gives: the progress line of each module with a change.
pub open spec fn print_lines(v: Seq<ModProgress>) -> Seq<Seq<char>>
    decreases v.len(),
{
    if v.len() == 0 {
        Seq::empty()
    } else {
        let m = v.last();
        print_lines(v.drop_last()) + if m.counts.has_changes {
            seq![progress_line(m.mod_name@, m.counts.complete_count as nat, total_of(m))]
        } else {
            Seq::empty()
        }
    }
}

/// The lines once the stack is deployed: every resource is created, and each module whose
/// count changed (or was not printed yet) is printed.
pub open spec fn done_lines(v: Seq<ModProgress>) -> Seq<Seq<char>>
    decreases v.len(),
{
    if v.len() == 0 {
        Seq::empty()
    } else {
        let m = v.last();
        done_lines(v.drop_last()) + if m.counts.has_changes || m.counts.complete_count != total_of(
            m,
        ) {
            seq![progress_line(m.mod_name@, total_of(m), total_of(m))]
        } else {
            Seq::empty()
        }
    }
}

/// The lines of the created counts read from the statuses, after a first printing: each
/// module whose count changed.
pub open spec fn count_lines(v: Seq<ModProgress>, statuses: Map<Seq<char>, Seq<char>>) -> Seq<Seq<char>>
    decreases v.len(),
{
    if v.len() == 0 {
        Seq::empty()
    } else {
        let m = v.last();
        let c = complete_count(resource_ids_view(m.resource_ids@), statuses);
        count_lines(v.drop_last(), statuses) + if m.counts.complete_count != c {
            seq![progress_line(m.mod_name@, c, total_of(m))]
        } else {
            Seq::empty()
        }
    }
}

pub open spec fn small_modules(v: Seq<ModProgress>) -> bool {
    forall|i: int| 0 <= i < v.len() ==> (#[trigger] v[i]).resource_ids@.len() <= u32::MAX
}

pub open spec fn same_modules(a: Seq<ModProgress>, b: Seq<ModProgress>) -> bool {
    &&& a.len() == b.len()
    &&& forall|i: int|
        0 <= i < a.len() ==> (#[trigger] a[i]).mod_name == b[i].mod_name && a[i].resource_ids
            == b[i].resource_ids
}

/// Prints the modules with a change (see `print_lines`); nothing is left to print.
pub fn print_progress(mods: &mut Vec<ModProgress>) -> (lines: Vec<String>)
    ensures
        same_modules(final(mods)@, old(mods)@),
        strings_view(lines@) == print_lines(old(mods)@),
        forall|i: int|
            0 <= i < final(mods)@.len() ==> !(#[trigger] final(mods)@[i]).counts.has_changes
                && final(mods)@[i].counts.complete_count == old(mods)@[i].counts.complete_count,
{
    let ghost orig = mods@;
    let mut lines: Vec<String> = Vec::new();
    let n = mods.len();
    let mut i: usize = 0;
    while i < n
        invariant
            n == mods@.len(),
            orig.len() == n,
            i <= n,
            same_modules(mods@, orig),
            forall|q: int| i <= q < n ==> mods@[q] == orig[q],
            forall|q: int|
                0 <= q < i ==> !(#[trigger] mods@[q]).counts.has_changes
                    && mods@[q].counts.complete_count == orig[q].counts.complete_count,
            strings_view(lines@) == print_lines(orig.subrange(0, i as int)),
        decreases n - i,
    {
        let ghost sub = orig.subrange(0, i + 1);
        assert(sub.drop_last() =~= orig.subrange(0, i as int));
        assert(sub.last() == orig[i as int]);
        let ghost b = strings_view(lines@);
        let ghost pre = mods@;
        let mut m = mods.remove(i);
        let total = m.resource_ids.len();
        let printed = m.counts.print(m.mod_name.as_str(), total);
        match printed {
            Some(l) => {
                lines.push(l);
            },
            None => {},
        }
        let ghost m2 = m;
        mods.insert(i, m);
        proof {
            assert(mods@ =~= pre.update(i as int, m2));
        }
        assert(strings_view(lines@) =~= print_lines(sub));
        i = i + 1;
    }
    assert(orig.subrange(0, n as int) =~= orig);
    lines
}

/// Once the stack is deployed: every module's count becomes its number of resources, and
/// the modules with a change are printed (see `done_lines`).
pub fn progress_when_done(mods: &mut Vec<ModProgress>) -> (lines: Vec<String>)
    requires
        small_modules(old(mods)@),
    ensures
        same_modules(final(mods)@, old(mods)@),
        strings_view(lines@) == done_lines(old(mods)@),
        forall|i: int|
            0 <= i < final(mods)@.len() ==> !(#[trigger] final(mods)@[i]).counts.has_changes
                && final(mods)@[i].counts.complete_count == total_of(old(mods)@[i]),
{
    let ghost orig = mods@;
    let mut lines: Vec<String> = Vec::new();
    let n = mods.len();
    let mut i: usize = 0;
    while i < n
        invariant
            n == mods@.len(),
            orig.len() == n,
            i <= n,
            small_modules(orig),
            same_modules(mods@, orig),
            forall|q: int| i <= q < n ==> mods@[q] == orig[q],
            forall|q: int|
                0 <= q < i ==> !(#[trigger] mods@[q]).counts.has_changes
                    && mods@[q].counts.complete_count == total_of(orig[q]),
            strings_view(lines@) == done_lines(orig.subrange(0, i as int)),
        decreases n - i,
    {
        let ghost sub = orig.subrange(0, i + 1);
        assert(sub.drop_last() =~= orig.subrange(0, i as int));
        assert(sub.last() == orig[i as int]);
        let ghost pre = mods@;
        let mut m = mods.remove(i);
        let total = m.resource_ids.len();
        assert(total <= u32::MAX);
        m.counts.set_complete_count(total as u32);
        let printed = m.counts.print(m.mod_name.as_str(), total);
        match printed {
            Some(l) => {
                lines.push(l);
            },
            None => {},
        }
        let ghost m2 = m;
        mods.insert(i, m);
        proof {
            assert(mods@ =~= pre.update(i as int, m2));
        }
        assert(strings_view(lines@) =~= done_lines(sub));
        i = i + 1;
    }
    assert(orig.subrange(0, n as int) =~= orig);
    lines
}

/// While the stack is being deployed: the modules with a change are printed, then, when
/// the statuses of the stack's resources were read, each module's count becomes its number
/// of created resources and the modules whose count changed are printed.
pub fn progress_while_deploying(mods: &mut Vec<ModProgress>, statuses: Option<&StrMap>) -> (lines:
    Vec<String>)
    requires
        small_modules(old(mods)@),
        statuses matches Some(s) ==> s.wf(),
    ensures
        same_modules(final(mods)@, old(mods)@),
        strings_view(lines@) == print_lines(old(mods)@) + match statuses {
            Some(s) => count_lines(old(mods)@, s@),
            None => Seq::empty(),
        },
        forall|i: int|
            0 <= i < final(mods)@.len() ==> !(#[trigger] final(mods)@[i]).counts.has_changes
                && final(mods)@[i].counts.complete_count == match statuses {
                Some(s) => complete_count(resource_ids_view(old(mods)@[i].resource_ids@), s@),
                None => old(mods)@[i].counts.complete_count as nat,
            },
{
    let ghost orig = mods@;
    let mut lines = print_progress(mods);
    let st = match statuses {
        Some(s) => s,
        None => {
            assert(strings_view(lines@) =~= print_lines(orig) + Seq::<Seq<char>>::empty());
            return lines;
        },
    };
    let ghost mid = mods@;
    let ghost head = strings_view(lines@);
    let n = mods.len();
    let mut i: usize = 0;
    assert(head + count_lines(orig.subrange(0, 0), st@) =~= head);
    while i < n
        invariant
            n == mods@.len(),
            orig.len() == n,
            mid.len() == n,
            st.wf(),
            i <= n,
            small_modules(orig),
            same_modules(mods@, orig),
            same_modules(mid, orig),
            forall|q: int| 0 <= q < n ==> mid[q].counts.complete_count == orig[q].counts.complete_count,
            forall|q: int| i <= q < n ==> mods@[q] == mid[q],
            forall|q: int|
                0 <= q < i ==> !(#[trigger] mods@[q]).counts.has_changes
                    && mods@[q].counts.complete_count == complete_count(
                    resource_ids_view(orig[q].resource_ids@),
                    st@,
                ),
            forall|q: int| 0 <= q < n ==> !(#[trigger] mid[q]).counts.has_changes,
            strings_view(lines@) == head + count_lines(orig.subrange(0, i as int), st@),
        decreases n - i,
    {
        let ghost sub = orig.subrange(0, i + 1);
        assert(sub.drop_last() =~= orig.subrange(0, i as int));
        assert(sub.last() == orig[i as int]);
        let ghost pre = mods@;
        let mut m = mods.remove(i);
        assert(m == mid[i as int]);
        assert(!m.counts.has_changes);
        assert(m.counts.complete_count == orig[i as int].counts.complete_count);
        assert(m.mod_name == orig[i as int].mod_name);
        assert(m.resource_ids == orig[i as int].resource_ids);
        let total = m.resource_ids.len();
        assert(total <= u32::MAX);
        let c = count_complete(&m.resource_ids, st);
        m.counts.set_complete_count(c);
        let printed = m.counts.print(m.mod_name.as_str(), total);
        let ghost b = strings_view(lines@);
        let ghost piece = if orig[i as int].counts.complete_count != c {
            seq![progress_line(orig[i as int].mod_name@, c as nat, total_of(orig[i as int]))]
        } else {
            Seq::<Seq<char>>::empty()
        };
        assert(count_lines(sub, st@) == count_lines(orig.subrange(0, i as int), st@) + piece);
        match printed {
            Some(l) => {
                lines.push(l);
                assert(strings_view(lines@) =~= b + piece);
            },
            None => {
                assert(b + piece =~= b);
            },
        }
        let ghost m2 = m;
        mods.insert(i, m);
        proof {
            assert(mods@ =~= pre.update(i as int, m2));
            assert(mid[i as int].mod_name == orig[i as int].mod_name);
            assert(mid[i as int].resource_ids == orig[i as int].resource_ids);
        }
        assert(strings_view(lines@) =~= head + count_lines(sub, st@));
        i = i + 1;
    }
    assert(orig.subrange(0, n as int) =~= orig);
    lines
}

// ---------------------------------------------------------------- outputs

fn insert_pair_sorted(out: &mut Vec<(String, String)>, x: (String, String))
    ensures
        pairs_view(final(out)@) == insert_sorted(pairs_view(old(out)@), (x.0@, x.1@)),
{
    let ghost ov = pairs_view(out@);
    let ghost xv = (x.0@, x.1@);
    let mut j = out.len();
    assert(ov.subrange(0, j as int) =~= ov);
    assert(insert_sorted(ov, xv) + ov.subrange(j as int, ov.len() as int) =~= insert_sorted(ov, xv));
    while j > 0 && !str_le(out[j - 1].0.as_str(), x.0.as_str())
        invariant
            j <= out@.len(),
            ov == pairs_view(out@),
            xv == (x.0@, x.1@),
            insert_sorted(ov, xv) == insert_sorted(ov.subrange(0, j as int), xv) + ov.subrange(
                j as int,
                ov.len() as int,
            ),
        decreases j,
    {
        proof {
            let pre = ov.subrange(0, j as int);
            assert(pre.drop_last() =~= ov.subrange(0, j - 1));
            assert(pre.last() == ov[j - 1]);
            assert(insert_sorted(pre, xv) == insert_sorted(ov.subrange(0, j - 1), xv).push(
                ov[j - 1],
            ));
            assert(insert_sorted(ov.subrange(0, j - 1), xv).push(ov[j - 1]) + ov.subrange(
                j as int,
                ov.len() as int,
            ) =~= insert_sorted(ov.subrange(0, j - 1), xv) + ov.subrange(j - 1, ov.len() as int));
        }
        j = j - 1;
    }
    proof {
        let pre = ov.subrange(0, j as int);
        if j > 0 {
            assert(pre.last() == ov[j - 1]);
            assert(insert_sorted(pre, xv) == pre.push(xv));
        } else {
            assert(insert_sorted(pre, xv) == seq![xv]);
        }
        assert(insert_sorted(pre, xv) + ov.subrange(j as int, ov.len() as int) =~= ov.insert(
            j as int,
            xv,
        ));
    }
    out.insert(j, x);
    assert(pairs_view(out@) =~= ov.insert(j as int, xv));
}

/// Sorts (key, value) pairs by key; pairs with equal keys keep their order.
pub fn sort_pairs(v: Vec<(String, String)>) -> (r: Vec<(String, String)>)
    ensures
        pairs_view(r@) == sort_by_key(pairs_view(v@)),
{
    let ghost orig = pairs_view(v@);
    let mut src = v;
    let n = src.len();
    let mut out: Vec<(String, String)> = Vec::new();
    let mut k: usize = 0;
    assert(pairs_view(out@) =~= sort_by_key(orig.subrange(0, 0)));
    assert(pairs_view(src@) =~= orig.subrange(0, n as int));
    while k < n
        invariant
            n == orig.len(),
            k <= n,
            src@.len() == n - k,
            pairs_view(src@) == orig.subrange(k as int, n as int),
            pairs_view(out@) == sort_by_key(orig.subrange(0, k as int)),
        decreases n - k,
    {
        let ghost sv = pairs_view(src@);
        assert(sv[0] == orig[k as int]);
        let x = src.remove(0);
        assert(pairs_view(src@) =~= sv.subrange(1, sv.len() as int));
        assert(pairs_view(src@) =~= orig.subrange(k + 1, n as int));
        insert_pair_sorted(&mut out, x);
        proof {
            let upto = orig.subrange(0, k + 1);
            assert(upto.drop_last() =~= orig.subrange(0, k as int));
            assert(upto.last() == orig[k as int]);
        }
        k = k + 1;
    }
    assert(orig.subrange(0, n as int) =~= orig);
    out
}

/// The report of the stack's outputs: nothing when there are none, else a heading and each
/// output, in order of its key, as `- key:` and the value on the next line.
pub open spec fn outputs_report_lines(outputs: Seq<(Seq<char>, Seq<char>)>) -> Seq<Seq<char>> {
    if outputs.len() == 0 {
        Seq::empty()
    } else {
        let sorted = sort_by_key(outputs);
        seq!["\nOutputs:"@] + Seq::new(
            sorted.len(),
            |i: int| "- "@ + sorted[i].0 + ":\n  "@ + sorted[i].1,
        )
    }
}

/// The lines that report the stack's outputs (see `outputs_report_lines`).
pub fn outputs_report(outputs: Vec<(String, String)>) -> (r: Vec<String>)
    ensures
        strings_view(r@) == outputs_report_lines(pairs_view(outputs@)),
{
    let ghost ov = pairs_view(outputs@);
    if outputs.len() == 0 {
        let empty: Vec<String> = Vec::new();
        assert(strings_view(empty@) =~= Seq::<Seq<char>>::empty());
        return empty;
    }
    let sorted = sort_pairs(outputs);
    let ghost sv = sort_by_key(ov);
    let mut out: Vec<String> = Vec::new();
    out.push(to_string("\nOutputs:"));
    let n = sorted.len();
    let mut i: usize = 0;
    while i < n
        invariant
            n == sorted@.len(),
            pairs_view(sorted@) == sv,
            i <= n,
            strings_view(out@) == seq!["\nOutputs:"@] + Seq::new(
                i as nat,
                |q: int| "- "@ + sv[q].0 + ":\n  "@ + sv[q].1,
            ),
        decreases n - i,
    {
        let mut line = concat3("- ", sorted[i].0.as_str(), ":\n  ");
        line.append(sorted[i].1.as_str());
        assert(sorted@[i as int].0@ == sv[i as int].0 && sorted@[i as int].1@ == sv[i as int].1);
        assert(line@ == "- "@ + sv[i as int].0 + ":\n  "@ + sv[i as int].1);
        let ghost b = strings_view(out@);
        let ghost lv = line@;
        out.push(line);
        assert(strings_view(out@) =~= b.push(lv));
        assert(strings_view(out@) =~= seq!["\nOutputs:"@] + Seq::new(
            (i + 1) as nat,
            |q: int| "- "@ + sv[q].0 + ":\n  "@ + sv[q].1,
        ));
        i = i + 1;
    }
    out
}

/// The report of the outputs lists them in order of their keys.
pub proof fn law_outputs_report_sorted(outputs: Seq<(Seq<char>, Seq<char>)>)
    ensures
        sorted_by_key(sort_by_key(outputs)),
        sort_by_key(outputs).len() == outputs.len(),
{
    law_sorted_labels_in_order(outputs);
}

} // verus!
