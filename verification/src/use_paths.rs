use vstd::prelude::*;
use vstd::string::*;

use crate::text::{push_char, strings_view};

verus! {

// ---------------------------------------------------------------- quotes

/// The text with surrounding pairs of double quotes taken off, pair after pair, as long as
/// the text starts and ends with `"` and has more than one character.
pub open spec fn without_surrounding_quotes(s: Seq<char>) -> Seq<char>
    decreases s.len(),
{
    if s.len() > 1 && s[0] == '"' && s.last() == '"' {
        without_surrounding_quotes(s.subrange(1, s.len() - 1))
    } else {
        s
    }
}

/// Whether the text is wrapped in a pair of double quotes.
pub open spec fn is_quoted(s: Seq<char>) -> bool {
    s.len() > 1 && s[0] == '"' && s.last() == '"'
}

/// The characters of `s` from `from` to `to`, as a new string.
fn char_range(s: &str, from: usize, to: usize) -> (r: String)
    requires
        from <= to <= s@.len(),
    ensures
        r@ == s@.subrange(from as int, to as int),
{
    String::from_str(s.substring_char(from, to))
}

proof fn lemma_unquote_range(s: Seq<char>, lo: int, hi: int)
    requires
        0 <= lo <= hi <= s.len(),
        without_surrounding_quotes(s.subrange(lo, hi)) == without_surrounding_quotes(s),
        is_quoted(s.subrange(lo, hi)),
    ensures
        without_surrounding_quotes(s.subrange(lo + 1, hi - 1)) == without_surrounding_quotes(s),
{
    let t = s.subrange(lo, hi);
    assert(t.subrange(1, t.len() - 1) =~= s.subrange(lo + 1, hi - 1));
}

/// Takes every surrounding pair of double quotes off the string, pair after pair.
pub fn remove_surrounding_quotes(s: &mut String)
    ensures
        final(s)@ == without_surrounding_quotes(old(s)@),
        !is_quoted(final(s)@),
{
    let n = s.as_str().unicode_len();
    let mut lo: usize = 0;
    let mut hi: usize = n;
    assert(s@.subrange(0, n as int) =~= s@);
    while hi - lo > 1 && s.as_str().get_char(lo) == '"' && s.as_str().get_char(hi - 1) == '"'
        invariant
            n == s@.len(),
            lo <= hi <= n,
            without_surrounding_quotes(s@.subrange(lo as int, hi as int))
                == without_surrounding_quotes(s@),
        decreases hi - lo,
    {
        proof {
            let t = s@.subrange(lo as int, hi as int);
            assert(t[0] == s@[lo as int]);
            assert(t.last() == s@[hi - 1]);
            lemma_unquote_range(s@, lo as int, hi as int);
        }
        lo = lo + 1;
        hi = hi - 1;
    }
    let r = char_range(s.as_str(), lo, hi);
    proof {
        let t = s@.subrange(lo as int, hi as int);
        if t.len() > 1 {
            assert(t[0] == s@[lo as int]);
            assert(t.last() == s@[hi - 1]);
        }
    }
    *s = r;
}

/// Taking off surrounding quotes a second time changes nothing.
pub proof fn law_unquote_idempotent(s: Seq<char>)
    ensures
        without_surrounding_quotes(without_surrounding_quotes(s)) == without_surrounding_quotes(s),
        !is_quoted(without_surrounding_quotes(s)),
    decreases s.len(),
{
    if is_quoted(s) {
        law_unquote_idempotent(s.subrange(1, s.len() - 1));
    }
}

// ---------------------------------------------------------------- snake case

pub open spec fn is_ascii_upper(c: char) -> bool {
    'A' <= c && c <= 'Z'
}

/// The ASCII lower-case form of a character; other characters stay as they are.
pub open spec fn ascii_lower(c: char) -> char {
    if is_ascii_upper(c) {
        ((c as u32) + 32) as char
    } else {
        c
    }
}

/// The snake-case form of a name: every character is lower-cased, and an upper-case ASCII
/// letter that is not the first character gets an underscore before it.
pub open spec fn snake_case(s: Seq<char>) -> Seq<char>
    decreases s.len(),
{
    if s.len() == 0 {
        s
    } else {
        let c = s.last();
        let rest = snake_case(s.drop_last());
        if is_ascii_upper(c) && s.len() > 1 {
            rest.push('_').push(ascii_lower(c))
        } else {
            rest.push(ascii_lower(c))
        }
    }
}

fn lower_char(c: char) -> (r: char)
    ensures
        r == ascii_lower(c),
{
    if 'A' <= c && c <= 'Z' {
        let b: u8 = c as u8;
        assert(b == c as u32);
        ((b + 32) as char)
    } else {
        c
    }
}

/// Turns a camel-case name into snake case, such as `L0KvReader` into `l0_kv_reader`.
pub fn convert_to_snake_case(field: &str) -> (r: String)
    ensures
        r@ == snake_case(field@),
{
    let n = field.unicode_len();
    let mut out = String::new();
    let mut i: usize = 0;
    while i < n
        invariant
            n == field@.len(),
            i <= n,
            out@ == snake_case(field@.subrange(0, i as int)),
        decreases n - i,
    {
        let c = field.get_char(i);
        proof {
            let pre = field@.subrange(0, i + 1);
            assert(pre.drop_last() =~= field@.subrange(0, i as int));
            assert(pre.last() == c);
        }
        if 'A' <= c && c <= 'Z' && i > 0 {
            push_char(&mut out, '_');
        }
        push_char(&mut out, lower_char(c));
        i = i + 1;
    }
    assert(field@.subrange(0, n as int) =~= field@);
    out
}

// ---------------------------------------------------------------- use paths

fn find_outputs(names: &[String]) -> (r: Option<usize>)
    ensures
        match r {
            Some(i) => i < names@.len() && names@[i as int]@ == "outputs"@ && forall|j: int|
                0 <= j < i ==> names@[j]@ != "outputs"@,
            None => forall|j: int| 0 <= j < names@.len() ==> names@[j]@ != "outputs"@,
        },
{
    let n = names.len();
    let mut i: usize = 0;
    while i < n
        invariant
            n == names@.len(),
            i <= n,
            forall|j: int| 0 <= j < i ==> names@[j]@ != "outputs"@,
        decreases n - i,
    {
        if crate::text::str_eq(names[i].as_str(), "outputs") {
            return Some(i);
        }
        i = i + 1;
    }
    None
}

/// Given the names of a use path such as `use a::b::outputs::something`, finds the module
/// whose outputs are imported (the name just before the first `outputs`) and, when something
/// follows `outputs`, the last name of the path.
///
/// It is `None` when no `outputs` occurs or `outputs` comes first.
pub fn parse_module_name_from_use_tree(names: &[String]) -> (r: Option<(&String, Option<&String>)>)
    ensures
        match r {
            None => (forall|j: int| 0 <= j < names@.len() ==> names@[j]@ != "outputs"@) || (
            names@.len() > 0 && names@[0]@ == "outputs"@),
            Some((m, after)) => exists|k: int|
                #![trigger names@[k]]
                0 < k < names@.len() && names@[k]@ == "outputs"@ && (forall|j: int|
                    0 <= j < k ==> names@[j]@ != "outputs"@) && *m == names@[k - 1] && (if k
                    == names@.len() - 1 {
                    after is None
                } else {
                    after == Some(&names@[names@.len() - 1])
                }),
        },
{
    let output_index = match find_outputs(names) {
        Some(i) => i,
        None => return None,
    };
    if output_index == 0 {
        return None;
    }
    let mod_name = &names[output_index - 1];
    if output_index == names.len() - 1 {
        return Some((mod_name, None));
    }
    let last = &names[names.len() - 1];
    Some((mod_name, Some(last)))
}

pub open spec fn is_path_keyword(s: Seq<char>) -> bool {
    s == "self"@ || s == "crate"@ || s == "super"@
}

/// Given a path such as `self::some_module::outputs`, finds the first name that is not
/// `self`, `crate` or `super`, and gives it with the names after it.
pub fn parse_module_name_from_use_names(names: &[String]) -> (r: Option<(&String, &[String])>)
    ensures
        match r {
            None => forall|j: int| 0 <= j < names@.len() ==> is_path_keyword(names@[j]@),
            Some((m, rest)) => exists|k: int|
                #![trigger names@[k]]
                0 <= k < names@.len() && !is_path_keyword(names@[k]@) && (forall|j: int|
                    0 <= j < k ==> is_path_keyword(names@[j]@)) && *m == names@[k] && rest@
                    == names@.subrange(k + 1, names@.len() as int),
        },
{
    let n = names.len();
    let mut i: usize = 0;
    while i < n
        invariant
            n == names@.len(),
            i <= n,
            forall|j: int| 0 <= j < i ==> is_path_keyword(names@[j]@),
        decreases n - i,
    {
        let name = names[i].as_str();
        if !crate::text::str_eq(name, "self") && !crate::text::str_eq(name, "crate")
            && !crate::text::str_eq(name, "super") {
            let (_, rest) = names.split_at(i + 1);
            return Some((&names[i], rest));
        }
        i = i + 1;
    }
    None
}

// ---------------------------------------------------------------- use trees

/// The tree of a `use` item: a name, a renamed name, a path step into a subtree, a group of
/// subtrees, or `*`.
#[derive(Debug)]
pub enum UseSpec {
    Name(String),
    Rename(String, String),
    Path(String, Box<UseSpec>),
    Group(Vec<UseSpec>),
    Glob,
}

/// What a `use` tree brings in, left to right: the path of each name, its new name when it
/// is renamed, and whether the path ends in `*` (the path is then that of the module).
pub open spec fn use_entries(past: Seq<Seq<char>>, t: UseSpec) -> Seq<
    (Seq<Seq<char>>, Option<Seq<char>>, bool),
>
    decreases t, 0nat,
{
    match t {
        UseSpec::Name(n) => seq![(past.push(n@), None, false)],
        UseSpec::Rename(n, r) => seq![(past.push(n@), Some(r@), false)],
        UseSpec::Path(n, sub) => use_entries(past.push(n@), *sub),
        UseSpec::Group(items) => group_entries(past, items@),
        UseSpec::Glob => seq![(past, None, true)],
    }
}

/// What the trees of a group bring in, one after the other.
pub open spec fn group_entries(past: Seq<Seq<char>>, items: Seq<UseSpec>) -> Seq<
    (Seq<Seq<char>>, Option<Seq<char>>, bool),
>
    decreases items, items.len(),
{
    if items.len() == 0 {
        Seq::empty()
    } else {
        group_entries(past, items.drop_last()) + use_entries(past, items.last())
    }
}

pub open spec fn entries_of(v: Seq<(Vec<String>, Option<String>, bool)>) -> Seq<
    (Seq<Seq<char>>, Option<Seq<char>>, bool),
> {
    Seq::new(
        v.len(),
        |i: int|
            (
                strings_view(v[i].0@),
                match v[i].1 {
                    Some(s) => Some(s@),
                    None => None,
                },
                v[i].2,
            ),
    )
}

fn push_entry(out: &mut Vec<(Vec<String>, Option<String>, bool)>, past: &Vec<String>, rename: Option<String>, glob: bool)
    ensures
        entries_of(final(out)@) == entries_of(old(out)@).push(
            (
                strings_view(past@),
                match rename {
                    Some(s) => Some(s@),
                    None => None,
                },
                glob,
            ),
        ),
{
    let mut copy: Vec<String> = Vec::new();
    let n = past.len();
    let mut i: usize = 0;
    while i < n
        invariant
            n == past@.len(),
            i <= n,
            strings_view(copy@) == strings_view(past@).subrange(0, i as int),
        decreases n - i,
    {
        let c = past[i].clone();
        let ghost b = strings_view(copy@);
        copy.push(c);
        assert(strings_view(copy@) =~= b.push(strings_view(past@)[i as int]));
        assert(strings_view(past@).subrange(0, i + 1) =~= strings_view(past@).subrange(0, i as int).push(strings_view(past@)[i as int]));
        i = i + 1;
    }
    assert(strings_view(past@).subrange(0, n as int) =~= strings_view(past@));
    let ghost before = entries_of(out@);
    out.push((copy, rename, glob));
    assert(entries_of(out@) =~= before.push(
        (
            strings_view(past@),
            match rename {
                Some(s) => Some(s@),
                None => None,
            },
            glob,
        ),
    ));
}

#[verifier::loop_isolation(false)]
fn walk_use_tree(past: &mut Vec<String>, tree: &UseSpec, out: &mut Vec<(Vec<String>, Option<String>, bool)>)
    ensures
        strings_view(final(past)@) == strings_view(old(past)@),
        entries_of(final(out)@) == entries_of(old(out)@) + use_entries(strings_view(old(past)@), *tree),
    decreases tree,
{
    let ghost p0 = strings_view(past@);
    let ghost o0 = entries_of(out@);
    match tree {
        UseSpec::Name(n) => {
            past.push(n.clone());
            assert(strings_view(past@) =~= p0.push(n@));
            push_entry(out, past, None, false);
            past.pop();
            assert(strings_view(past@) =~= p0);
            assert(o0.push((p0.push(n@), None, false)) =~= o0 + seq![(p0.push(n@), None::<Seq<char>>, false)]);
        },
        UseSpec::Rename(n, r) => {
            past.push(n.clone());
            assert(strings_view(past@) =~= p0.push(n@));
            push_entry(out, past, Some(r.clone()), false);
            past.pop();
            assert(strings_view(past@) =~= p0);
            assert(o0.push((p0.push(n@), Some(r@), false)) =~= o0 + seq![(p0.push(n@), Some(r@), false)]);
        },
        UseSpec::Path(n, sub) => {
            past.push(n.clone());
            assert(strings_view(past@) =~= p0.push(n@));
            walk_use_tree(past, sub, out);
            let ghost prev = past@;
            past.pop();
            assert(past@ =~= prev.drop_last());
            assert(strings_view(past@) =~= strings_view(prev).drop_last());
            assert(strings_view(past@) =~= p0);
        },
        UseSpec::Group(items) => {
            let m = items.len();
            let mut k: usize = 0;
            assert(o0 + group_entries(p0, items@.subrange(0, 0)) =~= o0);
            while k < m
                invariant
                    m == items@.len(),
                    k <= m,
                    strings_view(past@) == p0,
                    entries_of(out@) == o0 + group_entries(p0, items@.subrange(0, k as int)),
                decreases m - k,
            {
                let ghost sub = items@.subrange(0, k + 1);
                assert(sub.drop_last() =~= items@.subrange(0, k as int));
                assert(sub.last() == items@[k as int]);
                proof {
                    assert(decreases_to!(*tree => *items));
                    assert(decreases_to!(*items => items@));
                    assert(decreases_to!(items@ => items@[k as int]));
                }
                walk_use_tree(past, &items[k], out);
                assert(o0 + group_entries(p0, sub) =~= o0 + group_entries(p0, items@.subrange(0, k as int)) + use_entries(p0, items@[k as int]));
                k = k + 1;
            }
            assert(items@.subrange(0, m as int) =~= items@);
        },
        UseSpec::Glob => {
            push_entry(out, past, None, true);
            assert(o0.push((p0, None, true)) =~= o0 + seq![(p0, None::<Seq<char>>, true)]);
        },
    }
}

/// What a `use` tree brings in (see `use_entries`), after the names already walked.
pub fn iterate_item_tree(past_names: &mut Vec<String>, tree: &UseSpec) -> (r: Vec<(Vec<String>, Option<String>, bool)>)
    ensures
        strings_view(final(past_names)@) == strings_view(old(past_names)@),
        entries_of(r@) == use_entries(strings_view(old(past_names)@), *tree),
{
    let mut out: Vec<(Vec<String>, Option<String>, bool)> = Vec::new();
    assert(entries_of(out@) =~= Seq::<(Seq<Seq<char>>, Option<Seq<char>>, bool)>::empty());
    walk_use_tree(past_names, tree, &mut out);
    assert(Seq::<(Seq<Seq<char>>, Option<Seq<char>>, bool)>::empty() + use_entries(strings_view(old(past_names)@), *tree) =~= use_entries(strings_view(old(past_names)@), *tree));
    out
}

} // verus!
