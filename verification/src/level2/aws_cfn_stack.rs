use vstd::prelude::*;
use vstd::string::*;

use crate::kv::StrMap;
use crate::text::{ascii_alnum, byte_len, byte_length, concat3, decimal, is_ascii_alnum, push_decimal, to_string};

verus! {

/// How many resources of a module are created, and whether that changed since it was last
/// printed.
pub struct ModResourceCounts {
    pub complete_count: u32,
    pub has_changes: bool,
}

impl ModResourceCounts {
    /// Records the number of created resources; a different number is a change.
    pub fn set_complete_count(&mut self, num_complete: u32)
        ensures
            final(self).complete_count == num_complete,
            final(self).has_changes == (old(self).has_changes || old(self).complete_count
                != num_complete),
    {
        if self.complete_count != num_complete {
            self.has_changes = true;
        }
        self.complete_count = num_complete;
    }

    /// The progress line of the module when it changed (`name`, two tabs, created/total),
    /// and the change is then taken as printed.
    pub fn print(&mut self, mod_name: &str, total_resources: usize) -> (r: Option<String>)
        ensures
            final(self).complete_count == old(self).complete_count,
            !final(self).has_changes,
            old(self).has_changes ==> (r matches Some(s) && s@ == mod_name@ + "\t\t"@ + decimal(
                old(self).complete_count as nat,
            ) + "/"@ + decimal(total_resources as nat)),
            !old(self).has_changes ==> r is None,
    {
        let r = if self.has_changes {
            let mut s = concat3(mod_name, "\t\t", "");
            push_decimal(&mut s, self.complete_count as u64);
            s.append("/");
            push_decimal(&mut s, total_resources as u64);
            proof {
                reveal_strlit("");
            }
            Some(s)
        } else {
            None
        };
        self.has_changes = false;
        r
    }
}

pub open spec fn is_ascii_alpha(c: char) -> bool {
    ('a' <= c && c <= 'z') || ('A' <= c && c <= 'Z')
}

/// The stack a module deploys to: the given name, or `hira-gen-default-stack` when none is
/// given.
pub open spec fn stack_name_of(current: Seq<char>) -> Seq<char> {
    if current.len() == 0 {
        "hira-gen-default-stack"@
    } else {
        current
    }
}

/// Whether a stack name is allowed: it starts with an ASCII letter, holds only ASCII letters,
/// digits and `-`, and is at most 128 bytes long.
pub open spec fn valid_stack_name(s: Seq<char>) -> bool {
    &&& s.len() > 0 ==> is_ascii_alpha(s[0])
    &&& forall|i: int| 0 <= i < s.len() ==> is_ascii_alnum(s[i]) || s[i] == '-'
    &&& byte_len(s) <= 128
}

pub open spec fn invalid_stack_name_message(s: Seq<char>) -> Seq<char> {
    "Invalid stack name "@ + s + "\n"@
        + "Must only consist of alphanumeric characters and hyphens, Must start with an alphabetical character, and cannot be longer than 128 characters."@
}

/// The stack name to deploy to (see `stack_name_of`), when it is allowed.
pub fn validate_stack_name(_user_mod_name: &str, current_stack_name: &str) -> (r: Result<
    String,
    String,
>)
    ensures
        valid_stack_name(stack_name_of(current_stack_name@)) ==> (r matches Ok(s) && s@
            == stack_name_of(current_stack_name@)),
        !valid_stack_name(stack_name_of(current_stack_name@)) ==> (r matches Err(m) && m@
            == invalid_stack_name_message(stack_name_of(current_stack_name@))),
{
    let stack_name = if current_stack_name.unicode_len() == 0 {
        to_string("hira-gen-default-stack")
    } else {
        to_string(current_stack_name)
    };
    let ghost s = stack_name@;
    let n = stack_name.as_str().unicode_len();
    let mut i: usize = 0;
    while i < n
        invariant
            n == s.len(),
            s == stack_name@,
            s == stack_name_of(current_stack_name@),
            i <= n,
            i > 0 ==> is_ascii_alpha(s[0]),
            forall|j: int| 0 <= j < i ==> is_ascii_alnum(s[j]) || s[j] == '-',
        decreases n - i,
    {
        let c = stack_name.as_str().get_char(i);
        let alpha = ('a' <= c && c <= 'z') || ('A' <= c && c <= 'Z');
        if (i == 0 && !alpha) || (!ascii_alnum(c) && c != '-') {
            assert(s[i as int] == c);
            assert(!valid_stack_name(s));
            let mut m = concat3("Invalid stack name ", stack_name.as_str(), "\n");
            m.append(
                "Must only consist of alphanumeric characters and hyphens, Must start with an alphabetical character, and cannot be longer than 128 characters.",
            );
            return Err(m);
        }
        i = i + 1;
    }
    if byte_length(stack_name.as_str()) > 128 {
        let mut m = concat3("Invalid stack name ", stack_name.as_str(), "\n");
        m.append(
            "Must only consist of alphanumeric characters and hyphens, Must start with an alphabetical character, and cannot be longer than 128 characters.",
        );
        return Err(m);
    }
    Ok(stack_name)
}

/// How many of the resource ids have the status `CREATE_COMPLETE`.
pub open spec fn complete_count(ids: Seq<Seq<char>>, statuses: Map<Seq<char>, Seq<char>>) -> nat
    decreases ids.len(),
{
    if ids.len() == 0 {
        0
    } else {
        complete_count(ids.drop_last(), statuses) + if statuses.dom().contains(ids.last())
            && statuses[ids.last()] == "CREATE_COMPLETE"@ {
            1nat
        } else {
            0nat
        }
    }
}

pub open spec fn resource_ids_view(v: Seq<(bool, String)>) -> Seq<Seq<char>> {
    Seq::new(v.len(), |i: int| v[i].1@)
}

proof fn lemma_complete_count_bound(ids: Seq<Seq<char>>, statuses: Map<Seq<char>, Seq<char>>)
    ensures
        complete_count(ids, statuses) <= ids.len(),
    decreases ids.len(),
{
    if ids.len() > 0 {
        lemma_complete_count_bound(ids.drop_last(), statuses);
    }
}

/// Counts the resources of a module that are created, from the status of each resource of
/// the stack by logical id.
pub fn count_complete(resource_ids: &Vec<(bool, String)>, statuses: &StrMap) -> (r: u32)
    requires
        statuses.wf(),
        resource_ids@.len() <= u32::MAX,
    ensures
        r == complete_count(resource_ids_view(resource_ids@), statuses@),
{
    let ghost ids = resource_ids_view(resource_ids@);
    let n = resource_ids.len();
    let mut count: u32 = 0;
    let mut i: usize = 0;
    while i < n
        invariant
            n == resource_ids@.len(),
            n <= u32::MAX,
            ids == resource_ids_view(resource_ids@),
            statuses.wf(),
            i <= n,
            count == complete_count(ids.subrange(0, i as int), statuses@),
        decreases n - i,
    {
        let ghost upto = ids.subrange(0, i + 1);
        proof {
            assert(upto.drop_last() =~= ids.subrange(0, i as int));
            assert(upto.last() == ids[i as int]);
            lemma_complete_count_bound(ids.subrange(0, i as int), statuses@);
        }
        match statuses.get(resource_ids[i].1.as_str()) {
            Some(status) => {
                if crate::text::str_eq(status.as_str(), "CREATE_COMPLETE") {
                    count = count + 1;
                }
            },
            None => {},
        }
        i = i + 1;
    }
    assert(ids.subrange(0, n as int) =~= ids);
    count
}

} // verus!
