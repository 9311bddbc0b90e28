use vstd::prelude::*;
use vstd::string::*;

use crate::capabilities::{lvl3_dependency_names, visit_lvl3_dependency_names};
use crate::module_loading::{clone_strings, contains_string, HiraModule2};
use crate::shared_files::{first_module, HiraConfig};
use crate::text::{str_eq, strings_view};

verus! {

/// Whether a level-3 module is compiled and run: not when the build is a quick check, which
/// runs with `RUST_BACKTRACE=short`.
pub fn should_compile(rust_backtrace: Option<&str>) -> (r: bool)
    ensures
        r == !(rust_backtrace matches Some(v) && v@ == "short"@),
{
    match rust_backtrace {
        Some(v) => !str_eq(v, "short"),
        None => true,
    }
}

/// The crates that the named modules declare, in the order of the names; a name of no
/// loaded module adds none.
pub open spec fn dep_externs(mods: Seq<HiraModule2>, names: Seq<Seq<char>>) -> Seq<Seq<char>>
    decreases names.len(),
{
    if names.len() == 0 {
        Seq::empty()
    } else {
        dep_externs(mods, names.drop_last()) + match first_module(mods, names.last()) {
            Some(i) => strings_view(mods[i].extern_crates@),
            None => Seq::empty(),
        }
    }
}

/// The strings without repeats, each where it first occurs.
pub open spec fn distinct_strs(s: Seq<Seq<char>>) -> Seq<Seq<char>>
    decreases s.len(),
{
    if s.len() == 0 {
        s
    } else {
        let d = distinct_strs(s.drop_last());
        if d.contains(s.last()) {
            d
        } else {
            d.push(s.last())
        }
    }
}

fn append_strings(out: &mut Vec<String>, v: &Vec<String>)
    ensures
        strings_view(final(out)@) == strings_view(old(out)@) + strings_view(v@),
{
    let mut copy = clone_strings(v);
    let ghost a = strings_view(out@);
    let ghost b = strings_view(copy@);
    out.append(&mut copy);
    assert(strings_view(out@) =~= a + b);
}

proof fn lemma_dep_externs_step(mods: Seq<HiraModule2>, nv: Seq<Seq<char>>, i: int)
    requires
        0 <= i < nv.len(),
    ensures
        dep_externs(mods, nv.subrange(0, i + 1)) == dep_externs(mods, nv.subrange(0, i)) + match first_module(mods, nv[i]) {
            Some(k) => strings_view(mods[k].extern_crates@),
            None => Seq::<Seq<char>>::empty(),
        },
{
    assert(nv.subrange(0, i + 1).drop_last() =~= nv.subrange(0, i));
    assert(nv.subrange(0, i + 1).last() == nv[i]);
}

/// Adds the crates that the named modules declare (see `dep_externs`).
#[verifier::rlimit(30)]
fn gather_externs(conf: &HiraConfig, names: &Vec<String>, all: &mut Vec<String>)
    ensures
        strings_view(final(all)@) == strings_view(old(all)@) + dep_externs(conf.modules2@, strings_view(names@)),
{
    let ghost nv = strings_view(names@);
    let ghost start = strings_view(all@);
    assert(nv.subrange(0, 0) =~= Seq::<Seq<char>>::empty());
    assert(start + dep_externs(conf.modules2@, nv.subrange(0, 0)) =~= start);
    let mut i: usize = 0;
    while i < names.len()
        invariant
            i <= names@.len(),
            nv == strings_view(names@),
            strings_view(all@) == start + dep_externs(conf.modules2@, nv.subrange(0, i as int)),
        decreases names@.len() - i,
    {
        proof {
            lemma_dep_externs_step(conf.modules2@, nv, i as int);
        }
        let ghost before = strings_view(all@);
        match conf.get_mod2(names[i].as_str()) {
            Some(m) => {
                append_strings(all, &m.extern_crates);
            },
            None => {},
        }
        assert(strings_view(all@) =~= start + dep_externs(conf.modules2@, nv.subrange(0, i + 1)));
        i = i + 1;
    }
    assert(nv.subrange(0, names@.len() as int) =~= nv);
}

/// The crates that a level-3 module and the modules it builds on declare with
/// `extern crate`, each once: the module's own first, then those of each module it builds
/// on, in the order they are visited.
pub fn get_all_extern_crates(conf: &HiraConfig, module: &HiraModule2) -> (r: Vec<String>)
    ensures
        strings_view(r@) == distinct_strs(
            strings_view(module.extern_crates@) + dep_externs(
                conf.modules2@,
                lvl3_dependency_names(conf.modules2@, *module),
            ),
        ),
{
    let names = visit_lvl3_dependency_names(conf, module);
    let mut all = clone_strings(&module.extern_crates);
    gather_externs(conf, &names, &mut all);
    let ghost av = strings_view(all@);
    let mut out: Vec<String> = Vec::new();
    assert(av.subrange(0, 0) =~= Seq::<Seq<char>>::empty());
    let mut k: usize = 0;
    while k < all.len()
        invariant
            k <= all@.len(),
            av == strings_view(all@),
            strings_view(out@) == distinct_strs(av.subrange(0, k as int)),
        decreases all@.len() - k,
    {
        assert(av.subrange(0, k + 1).drop_last() =~= av.subrange(0, k as int));
        assert(av.subrange(0, k + 1).last() == all@[k as int]@);
        if !contains_string(&out, all[k].as_str()) {
            let ghost o = strings_view(out@);
            out.push(all[k].clone());
            assert(strings_view(out@) =~= o.push(all@[k as int]@));
        }
        k = k + 1;
    }
    assert(av.subrange(0, all@.len() as int) =~= av);
    out
}

fn find_module(mods: &Vec<HiraModule2>, name: &str) -> (i: usize)
    ensures
        i <= mods@.len(),
        forall|j: int| 0 <= j < i ==> mods@[j].name@ != name@,
        i < mods@.len() ==> mods@[i as int].name@ == name@,
{
    let mut i: usize = 0;
    while i < mods.len()
        invariant
            i <= mods@.len(),
            forall|j: int| 0 <= j < i ==> mods@[j].name@ != name@,
        decreases mods@.len() - i,
    {
        if str_eq(mods[i].name.as_str(), name) {
            return i;
        }
        i = i + 1;
    }
    i
}

proof fn lemma_first_module_at(mods: Seq<HiraModule2>, name: Seq<char>, i: int)
    requires
        0 <= i <= mods.len(),
        forall|j: int| 0 <= j < i ==> mods[j].name@ != name,
        i < mods.len() ==> mods[i].name@ == name,
    ensures
        first_module(mods, name) == if i < mods.len() { Some(i) } else { None::<int> },
{
    if i < mods.len() {
        let k = choose|k: int|
            0 <= k < mods.len() && mods[k].name@ == name && forall|j: int|
                0 <= j < k ==> mods[j].name@ != name;
        assert(0 <= i < mods.len() && mods[i].name@ == name && forall|j: int|
            0 <= j < i ==> mods[j].name@ != name);
        if k < i {
            assert(mods[k].name@ != name);
        }
        if k > i {
            assert(mods[i].name@ != name);
        }
    } else {
        if exists|k: int| 0 <= k < mods.len() && mods[k].name@ == name {
            let k = choose|k: int| 0 <= k < mods.len() && mods[k].name@ == name;
            assert(mods[k].name@ != name);
        }
    }
}

impl HiraConfig {
    /// Keeps a loaded module for the modules that build on it: it replaces the module of
    /// the same name, or is added at the end.
    pub fn put_module2(&mut self, module: HiraModule2)
        ensures
            final(self).modules2@ == match first_module(old(self).modules2@, module.name@) {
                Some(i) => old(self).modules2@.update(i, module),
                None => old(self).modules2@.push(module),
            },
            crate::shared_files::same_but_modules(*final(self), *old(self)),
    {
        let i = find_module(&self.modules2, module.name.as_str());
        proof {
            lemma_first_module_at(self.modules2@, module.name@, i as int);
        }
        if i < self.modules2.len() {
            self.modules2.set(i, module);
        } else {
            self.modules2.push(module);
        }
    }
}

} // verus!
