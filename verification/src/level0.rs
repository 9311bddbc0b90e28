use vstd::prelude::*;
use vstd::string::*;

use crate::kv::{
    keys_unique, lemma_pairs_map_dom, lemma_pairs_map_index, lemma_pairs_map_push,
    lemma_pairs_map_remove, lemma_pairs_map_update, pairs_map, StrMap,
};
use crate::text::{concat3, str_eq, to_string};

verus! {

// ---------------------------------------------------------------- maps of maps

pub open spec fn nested_pairs(v: Seq<(String, StrMap)>) -> Seq<(Seq<char>, Map<Seq<char>, Seq<char>>)> {
    Seq::new(v.len(), |i: int| (v[i].0@, v[i].1@))
}

/// The map of maps that a list of named string maps stands for.
pub open spec fn nested_view(v: Seq<(String, StrMap)>) -> Map<Seq<char>, Map<Seq<char>, Seq<char>>> {
    pairs_map(nested_pairs(v))
}

/// Whether the names are distinct and each inner map is well formed.
pub open spec fn nested_wf(v: Seq<(String, StrMap)>) -> bool {
    &&& keys_unique(nested_pairs(v))
    &&& forall|i: int| 0 <= i < v.len() ==> (#[trigger] v[i]).1.wf()
}

/// The inner map named `name`, or the empty map.
pub open spec fn inner_or_empty(
    m: Map<Seq<char>, Map<Seq<char>, Seq<char>>>,
    name: Seq<char>,
) -> Map<Seq<char>, Seq<char>> {
    if m.dom().contains(name) {
        m[name]
    } else {
        Map::empty()
    }
}

/// The map of maps after `key` is bound to `val` in the inner map named `name`, which is
/// made when absent.
pub open spec fn nested_put(
    m: Map<Seq<char>, Map<Seq<char>, Seq<char>>>,
    name: Seq<char>,
    key: Seq<char>,
    val: Seq<char>,
) -> Map<Seq<char>, Map<Seq<char>, Seq<char>>> {
    m.insert(name, inner_or_empty(m, name).insert(key, val))
}

pub(crate) fn find_named(v: &Vec<(String, StrMap)>, name: &str) -> (i: usize)
    ensures
        i <= v@.len(),
        i < v@.len() ==> v@[i as int].0@ == name@,
        i == v@.len() ==> forall|j: int| 0 <= j < v@.len() ==> v@[j].0@ != name@,
{
    let n = v.len();
    let mut i: usize = 0;
    while i < n
        invariant
            n == v@.len(),
            i <= n,
            forall|j: int| 0 <= j < i ==> v@[j].0@ != name@,
        decreases n - i,
    {
        if str_eq(v[i].0.as_str(), name) {
            return i;
        }
        i = i + 1;
    }
    i
}

pub(crate) proof fn lemma_find_named(v: Seq<(String, StrMap)>, name: Seq<char>, i: int)
    requires
        nested_wf(v),
        0 <= i <= v.len(),
        i < v.len() ==> v[i].0@ == name,
        i == v.len() ==> forall|j: int| 0 <= j < v.len() ==> v[j].0@ != name,
    ensures
        i < v.len() ==> nested_view(v).dom().contains(name) && nested_view(v)[name] == v[i].1@,
        i == v.len() ==> !nested_view(v).dom().contains(name),
{
    let p = nested_pairs(v);
    lemma_pairs_map_dom(p, name);
    if i < v.len() {
        lemma_pairs_map_index(p, i);
    } else {
        assert(forall|j: int| 0 <= j < p.len() ==> p[j].0 != name);
    }
}

/// Binds `key` to `val` in the inner map named `name`, making that map when absent.
pub(crate) fn nested_insert(v: &mut Vec<(String, StrMap)>, name: &str, key: String, val: String)
    requires
        nested_wf(old(v)@),
    ensures
        nested_wf(final(v)@),
        nested_view(final(v)@) == nested_put(nested_view(old(v)@), name@, key@, val@),
{
    let i = find_named(v, name);
    let ghost p = nested_pairs(v@);
    proof {
        lemma_find_named(v@, name@, i as int);
    }
    if i < v.len() {
        let (n, mut inner) = v.remove(i);
        inner.insert(key, val);
        v.insert(i, (n, inner));
        proof {
            lemma_pairs_map_update(p, i as int, inner@);
            assert(nested_pairs(v@) =~= p.update(i as int, (p[i as int].0, inner@)));
            assert forall|j: int| 0 <= j < v@.len() implies (#[trigger] v@[j]).1.wf() by {
                if j != i {
                    assert(v@[j] == old(v)@[j]);
                }
            }
        }
    } else {
        let mut inner = StrMap::new();
        inner.insert(key, val);
        v.push((to_string(name), inner));
        proof {
            lemma_pairs_map_push(p, name@, inner@);
            assert(nested_pairs(v@) =~= p.push((name@, inner@)));
            assert(inner@ =~= Map::<Seq<char>, Seq<char>>::empty().insert(key@, val@));
            assert forall|j: int| 0 <= j < v@.len() implies (#[trigger] v@[j]).1.wf() by {
                if j < i {
                    assert(v@[j] == old(v)@[j]);
                }
            }
        }
    }
}

// ---------------------------------------------------------------- core

/// The core level-0 services a module gets: compiler messages, outputs for other modules,
/// and the names of the user's module and crate.
pub struct L0Core {
    pub compiler_error_message: String,
    pub compiler_warning_message: String,
    pub module_outputs: Vec<(String, StrMap)>,
    pub current_module_name: String,
    pub lvl3_module_name: String,
    pub crate_name: String,
}

impl L0Core {
    pub open spec fn wf(&self) -> bool {
        nested_wf(self.module_outputs@)
    }

    /// The outputs set so far, by module name and then by key.
    pub open spec fn outputs(&self) -> Map<Seq<char>, Map<Seq<char>, Seq<char>>> {
        nested_view(self.module_outputs@)
    }

    /// Everything but the outputs is as in `other`.
    pub open spec fn same_names(&self, other: &L0Core) -> bool {
        &&& self.compiler_error_message@ == other.compiler_error_message@
        &&& self.compiler_warning_message@ == other.compiler_warning_message@
        &&& self.current_module_name@ == other.current_module_name@
        &&& self.lvl3_module_name@ == other.lvl3_module_name@
        &&& self.crate_name@ == other.crate_name@
    }

    pub fn new() -> (r: L0Core)
        ensures
            r.wf(),
            r.outputs() == Map::<Seq<char>, Map<Seq<char>, Seq<char>>>::empty(),
            r.compiler_error_message@ == Seq::<char>::empty(),
            r.compiler_warning_message@ == Seq::<char>::empty(),
            r.current_module_name@ == Seq::<char>::empty(),
            r.lvl3_module_name@ == Seq::<char>::empty(),
            r.crate_name@ == Seq::<char>::empty(),
    {
        let r = L0Core {
            compiler_error_message: String::new(),
            compiler_warning_message: String::new(),
            module_outputs: Vec::new(),
            current_module_name: String::new(),
            lvl3_module_name: String::new(),
            crate_name: String::new(),
        };
        assert(nested_pairs(r.module_outputs@) =~= Seq::<
            (Seq<char>, Map<Seq<char>, Seq<char>>),
        >::empty());
        r
    }

    /// Sets an output of the current module: `key` should name one of the module's outputs.
    pub fn set_output(&mut self, key: &str, val: &str)
        requires
            old(self).wf(),
        ensures
            final(self).wf(),
            final(self).same_names(old(self)),
            final(self).outputs() == nested_put(
                old(self).outputs(),
                old(self).current_module_name@,
                key@,
                val@,
            ),
    {
        let name = self.current_module_name.clone();
        nested_insert(&mut self.module_outputs, name.as_str(), to_string(key), to_string(val));
    }

    /// The name of the user's module that refers to this module.
    pub fn users_module_name(&self) -> (r: String)
        ensures
            r@ == self.lvl3_module_name@,
    {
        self.lvl3_module_name.clone()
    }

    /// The name of the crate being compiled.
    pub fn crate_name(&self) -> (r: String)
        ensures
            r@ == self.crate_name@,
    {
        self.crate_name.clone()
    }

    /// Records a compiler error; the first one recorded is kept.
    pub fn compiler_error(&mut self, err: &str)
        ensures
            final(self).compiler_error_message@ == (if old(
                self,
            ).compiler_error_message@.len() == 0 {
                err@
            } else {
                old(self).compiler_error_message@
            }),
            final(self).compiler_warning_message@ == old(self).compiler_warning_message@,
            final(self).module_outputs@ == old(self).module_outputs@,
            final(self).current_module_name@ == old(self).current_module_name@,
            final(self).lvl3_module_name@ == old(self).lvl3_module_name@,
            final(self).crate_name@ == old(self).crate_name@,
    {
        if self.compiler_error_message.as_str().unicode_len() == 0 {
            self.compiler_error_message = to_string(err);
        }
    }

    /// Records a compiler warning; the first one recorded is kept.
    pub fn compiler_warning(&mut self, msg: &str)
        ensures
            final(self).compiler_warning_message@ == (if old(
                self,
            ).compiler_warning_message@.len() == 0 {
                msg@
            } else {
                old(self).compiler_warning_message@
            }),
            final(self).compiler_error_message@ == old(self).compiler_error_message@,
            final(self).module_outputs@ == old(self).module_outputs@,
            final(self).current_module_name@ == old(self).current_module_name@,
            final(self).lvl3_module_name@ == old(self).lvl3_module_name@,
            final(self).crate_name@ == old(self).crate_name@,
    {
        if self.compiler_warning_message.as_str().unicode_len() == 0 {
            self.compiler_warning_message = to_string(msg);
        }
    }

    /// Moves every output of the module `mod_name` into `existing`, replacing values there.
    pub fn drain_outputs_into(&mut self, mod_name: &str, existing: &mut StrMap)
        requires
            old(self).wf(),
            old(existing).wf(),
        ensures
            final(self).wf(),
            final(self).same_names(old(self)),
            final(existing).wf(),
            final(self).outputs() == old(self).outputs().remove(mod_name@),
            final(existing)@ == old(existing)@.union_prefer_right(
                inner_or_empty(old(self).outputs(), mod_name@),
            ),
    {
        let i = find_named(&self.module_outputs, mod_name);
        let ghost p = nested_pairs(self.module_outputs@);
        proof {
            lemma_find_named(self.module_outputs@, mod_name@, i as int);
        }
        if i == self.module_outputs.len() {
            assert(p.len() == i);
            assert(pairs_map(p).remove(mod_name@) =~= pairs_map(p));
            assert(existing@.union_prefer_right(Map::empty()) =~= existing@);
            return;
        }
        let (_, inner) = self.module_outputs.remove(i);
        proof {
            lemma_pairs_map_remove(p, i as int);
            assert(nested_pairs(self.module_outputs@) =~= p.remove(i as int));
            assert forall|j: int| 0 <= j < self.module_outputs@.len() implies (#[trigger] self.module_outputs@[j]).1.wf() by {
                if j < i {
                    assert(self.module_outputs@[j] == old(self).module_outputs@[j]);
                } else {
                    assert(self.module_outputs@[j] == old(self).module_outputs@[j + 1]);
                }
            }
        }
        move_all_into(&inner, existing);
    }

    /// Takes the output `key` of the module `mod_name` out, giving back its value.
    pub fn remove_specific_output(&mut self, mod_name: &str, key: &str) -> (r: Option<String>)
        requires
            old(self).wf(),
        ensures
            final(self).wf(),
            final(self).same_names(old(self)),
            r matches Some(v) ==> inner_or_empty(old(self).outputs(), mod_name@).dom().contains(
                key@,
            ) && v@ == inner_or_empty(old(self).outputs(), mod_name@)[key@],
            r is None ==> !inner_or_empty(old(self).outputs(), mod_name@).dom().contains(key@),
            final(self).outputs() == (if old(self).outputs().dom().contains(mod_name@) {
                old(self).outputs().insert(
                    mod_name@,
                    old(self).outputs()[mod_name@].remove(key@),
                )
            } else {
                old(self).outputs()
            }),
    {
        let i = find_named(&self.module_outputs, mod_name);
        let ghost p = nested_pairs(self.module_outputs@);
        proof {
            lemma_find_named(self.module_outputs@, mod_name@, i as int);
        }
        if i == self.module_outputs.len() {
            return None;
        }
        let (n, mut inner) = self.module_outputs.remove(i);
        let r = inner.remove(key);
        self.module_outputs.insert(i, (n, inner));
        proof {
            lemma_pairs_map_update(p, i as int, inner@);
            assert(nested_pairs(self.module_outputs@) =~= p.update(i as int, (p[i as int].0, inner@)));
            assert forall|j: int| 0 <= j < self.module_outputs@.len() implies (#[trigger] self.module_outputs@[j]).1.wf() by {
                if j != i {
                    assert(self.module_outputs@[j] == old(self).module_outputs@[j]);
                }
            }
        }
        r
    }
}

/// Copies every binding of `from` into `into`, replacing values there.
fn move_all_into(from: &StrMap, into: &mut StrMap)
    requires
        from.wf(),
        old(into).wf(),
    ensures
        final(into).wf(),
        final(into)@ == old(into)@.union_prefer_right(from@),
{
    let n = from.entries.len();
    let ghost p = crate::kv::str_pairs(from.entries@);
    let mut j: usize = 0;
    while j < n
        invariant
            n == from.entries@.len(),
            p == crate::kv::str_pairs(from.entries@),
            j <= n,
            into.wf(),
            into@ == old(into)@.union_prefer_right(pairs_map(p.subrange(0, j as int))),
        decreases n - j,
    {
        let k = from.entries[j].0.clone();
        let v = from.entries[j].1.clone();
        into.insert(k, v);
        proof {
            let q = p.subrange(0, j + 1);
            assert(q.drop_last() =~= p.subrange(0, j as int));
            assert(q.last() == p[j as int]);
            assert(into@ =~= old(into)@.union_prefer_right(pairs_map(q)));
        }
        j = j + 1;
    }
    assert(p.subrange(0, n as int) =~= p);
}

/// Setting an output and then reading it back gives what was set.
pub proof fn law_output_read_after_write(
    m: Map<Seq<char>, Map<Seq<char>, Seq<char>>>,
    name: Seq<char>,
    key: Seq<char>,
    val: Seq<char>,
)
    ensures
        inner_or_empty(nested_put(m, name, key, val), name).dom().contains(key),
        inner_or_empty(nested_put(m, name, key, val), name)[key] == val,
{
}


// ---------------------------------------------------------------- shared files

/// One line that a module asks to add to a shared file, under a label.
pub struct SharedOutputEntry {
    pub filename: String,
    pub label: String,
    pub line: String,
    pub unique: bool,
    pub after: Option<String>,
}

pub struct EntryV {
    pub filename: Seq<char>,
    pub label: Seq<char>,
    pub line: Seq<char>,
    pub unique: bool,
    pub after: Option<Seq<char>>,
}

pub open spec fn opt_view(o: Option<String>) -> Option<Seq<char>> {
    match o {
        Some(s) => Some(s@),
        None => None,
    }
}

impl View for SharedOutputEntry {
    type V = EntryV;

    open spec fn view(&self) -> EntryV {
        EntryV {
            filename: self.filename@,
            label: self.label@,
            line: self.line@,
            unique: self.unique,
            after: opt_view(self.after),
        }
    }
}

pub open spec fn entries_view(v: Seq<SharedOutputEntry>) -> Seq<EntryV> {
    Seq::new(v.len(), |i: int| v[i]@)
}

/// Lines that modules ask to add to shared files.
pub struct L0AppendFile {
    pub shared_output_data: Vec<SharedOutputEntry>,
    pub current_module_name: String,
}

impl L0AppendFile {
    pub open spec fn entries(&self) -> Seq<EntryV> {
        entries_view(self.shared_output_data@)
    }

    pub fn new() -> (r: L0AppendFile)
        ensures
            r.entries() == Seq::<EntryV>::empty(),
            r.current_module_name@ == Seq::<char>::empty(),
    {
        let r = L0AppendFile { shared_output_data: Vec::new(), current_module_name: String::new() };
        assert(r.entries() =~= Seq::<EntryV>::empty());
        r
    }

    fn push_entry(&mut self, name: &str, label: &str, line: String, unique: bool, after: Option<String>)
        ensures
            final(self).entries() == old(self).entries().push(
                EntryV {
                    filename: name@,
                    label: label@,
                    line: line@,
                    unique: unique,
                    after: opt_view(after),
                },
            ),
            final(self).current_module_name@ == old(self).current_module_name@,
    {
        let e = SharedOutputEntry {
            label: to_string(label),
            line: line,
            filename: to_string(name),
            unique: unique,
            after: after,
        };
        let ghost ev = e@;
        self.shared_output_data.push(e);
        assert(self.entries() =~= old(self).entries().push(ev));
    }

    /// Appends a line under a label of the shared file `name`. Labels are sorted when the
    /// file is written, and each label is written above its lines.
    pub fn append_to_file(&mut self, name: &str, label: &str, line: String)
        ensures
            final(self).entries() == old(self).entries().push(
                EntryV { filename: name@, label: label@, line: line@, unique: false, after: None },
            ),
            final(self).current_module_name@ == old(self).current_module_name@,
    {
        self.push_entry(name, label, line, false, None);
    }

    /// Like `append_to_file`, but the line is written once under its label.
    pub fn append_to_file_unique(&mut self, name: &str, label: &str, line: String)
        ensures
            final(self).entries() == old(self).entries().push(
                EntryV { filename: name@, label: label@, line: line@, unique: true, after: None },
            ),
            final(self).current_module_name@ == old(self).current_module_name@,
    {
        self.push_entry(name, label, line, true, None);
    }

    /// Asks to write `after` right after the first occurrence of `search_str` under the
    /// label; where `search_str` occurs nowhere, the two are written as one new line.
    pub fn append_to_line(&mut self, name: &str, label: &str, search_str: String, after: String)
        ensures
            final(self).entries() == old(self).entries().push(
                EntryV {
                    filename: name@,
                    label: label@,
                    line: search_str@,
                    unique: false,
                    after: Some(after@),
                },
            ),
            final(self).current_module_name@ == old(self).current_module_name@,
    {
        self.push_entry(name, label, search_str, false, Some(after));
    }
}

// ---------------------------------------------------------------- key/value reader

/// A key/value store shared across module invocations.
pub struct L0KvReader {
    pub current_module_name: String,
    pub data: StrMap,
}

impl L0KvReader {
    pub fn new() -> (r: L0KvReader)
        ensures
            r.data.wf(),
            r.data@ == Map::<Seq<char>, Seq<char>>::empty(),
            r.current_module_name@ == Seq::<char>::empty(),
    {
        L0KvReader { current_module_name: String::new(), data: StrMap::new() }
    }

    /// Binds `key` to `val`.
    pub fn insert(&mut self, key: String, val: String)
        requires
            old(self).data.wf(),
        ensures
            final(self).data.wf(),
            final(self).data@ == old(self).data@.insert(key@, val@),
            final(self).current_module_name@ == old(self).current_module_name@,
    {
        self.data.insert(key, val);
    }
}

// ---------------------------------------------------------------- runtimes

/// How a runtime is compiled.
pub struct RuntimeMeta {
    pub cargo_cmd: String,
    pub target: String,
    pub profile: String,
}

/// One line of code in the entry point of a runtime, with the module that added it.
pub struct RuntimeInfo {
    pub creator: String,
    pub code: String,
    pub unique_line: bool,
}

pub struct RuntimeData {
    pub code_lines: Vec<RuntimeInfo>,
    pub meta: RuntimeMeta,
}

pub open spec fn info_view(i: RuntimeInfo) -> (Seq<char>, Seq<char>, bool) {
    (i.creator@, i.code@, i.unique_line)
}

pub open spec fn meta_view(m: RuntimeMeta) -> (Seq<char>, Seq<char>, Seq<char>) {
    (m.cargo_cmd@, m.target@, m.profile@)
}

/// A runtime: its lines of code, in the order they were added, and how it is compiled.
pub open spec fn runtime_view(d: RuntimeData) -> (
    Seq<(Seq<char>, Seq<char>, bool)>,
    (Seq<char>, Seq<char>, Seq<char>),
) {
    (Seq::new(d.code_lines@.len(), |i: int| info_view(d.code_lines@[i])), meta_view(d.meta))
}

pub open spec fn runtime_pairs(v: Seq<(String, RuntimeData)>) -> Seq<
    (Seq<char>, (Seq<(Seq<char>, Seq<char>, bool)>, (Seq<char>, Seq<char>, Seq<char>))),
> {
    Seq::new(v.len(), |i: int| (v[i].0@, runtime_view(v[i].1)))
}

/// Executables that modules add lines of code to.
pub struct L0RuntimeCreator {
    pub current_module_name: String,
    pub runtimes: Vec<(String, RuntimeData)>,
}

impl L0RuntimeCreator {
    pub open spec fn wf(&self) -> bool {
        keys_unique(runtime_pairs(self.runtimes@))
    }

    pub open spec fn runtimes_map(&self) -> Map<
        Seq<char>,
        (Seq<(Seq<char>, Seq<char>, bool)>, (Seq<char>, Seq<char>, Seq<char>)),
    > {
        pairs_map(runtime_pairs(self.runtimes@))
    }

    pub fn new() -> (r: L0RuntimeCreator)
        ensures
            r.wf(),
            r.runtimes_map() == Map::<
                Seq<char>,
                (Seq<(Seq<char>, Seq<char>, bool)>, (Seq<char>, Seq<char>, Seq<char>)),
            >::empty(),
            r.current_module_name@ == Seq::<char>::empty(),
    {
        let r = L0RuntimeCreator { current_module_name: String::new(), runtimes: Vec::new() };
        assert(runtime_pairs(r.runtimes@) =~= Seq::empty());
        r
    }

    fn find_runtime(v: &Vec<(String, RuntimeData)>, name: &str) -> (i: usize)
        ensures
            i <= v@.len(),
            i < v@.len() ==> v@[i as int].0@ == name@,
            i == v@.len() ==> forall|j: int| 0 <= j < v@.len() ==> v@[j].0@ != name@,
    {
        let n = v.len();
        let mut i: usize = 0;
        while i < n
            invariant
                n == v@.len(),
                i <= n,
                forall|j: int| 0 <= j < i ==> v@[j].0@ != name@,
            decreases n - i,
        {
            if str_eq(v[i].0.as_str(), name) {
                return i;
            }
            i = i + 1;
        }
        i
    }

    fn empty_meta() -> (m: RuntimeMeta)
        ensures
            meta_view(m) == (Seq::<char>::empty(), Seq::<char>::empty(), Seq::<char>::empty()),
    {
        RuntimeMeta { cargo_cmd: String::new(), target: String::new(), profile: String::new() }
    }

    /// Adds a line of code, made by the current module, to the entry point of the runtime
    /// `runtime_name`. A runtime that does not exist yet is made with `meta`; the meta of an
    /// existing runtime stays.
    pub fn add_to_runtime_ex_inner(
        &mut self,
        runtime_name: &str,
        code: String,
        meta: RuntimeMeta,
        unique_line: bool,
    )
        requires
            old(self).wf(),
        ensures
            final(self).wf(),
            final(self).current_module_name@ == old(self).current_module_name@,
            final(self).runtimes_map() == old(self).runtimes_map().insert(
                runtime_name@,
                if old(self).runtimes_map().dom().contains(runtime_name@) {
                    (
                        old(self).runtimes_map()[runtime_name@].0.push(
                            (old(self).current_module_name@, code@, unique_line),
                        ),
                        old(self).runtimes_map()[runtime_name@].1,
                    )
                } else {
                    (seq![(old(self).current_module_name@, code@, unique_line)], meta_view(meta))
                },
            ),
    {
        let n = self.runtimes.len();
        let i = Self::find_runtime(&self.runtimes, runtime_name);
        let ghost p = runtime_pairs(self.runtimes@);
        proof {
            lemma_pairs_map_dom(p, runtime_name@);
        }
        let info = RuntimeInfo { creator: self.current_module_name.clone(), code, unique_line };
        let ghost iv = info_view(info);
        if i < n {
            proof {
                lemma_pairs_map_index(p, i as int);
            }
            let (name, mut data) = self.runtimes.remove(i);
            let ghost before = runtime_view(data);
            data.code_lines.push(info);
            let ghost after = runtime_view(data);
            assert(after.0 =~= before.0.push(iv));
            self.runtimes.insert(i, (name, data));
            proof {
                lemma_pairs_map_update(p, i as int, after);
                assert(runtime_pairs(self.runtimes@) =~= p.update(i as int, (p[i as int].0, after)));
            }
        } else {
            assert(forall|j: int| 0 <= j < p.len() ==> p[j].0 != runtime_name@);
            let mut lines: Vec<RuntimeInfo> = Vec::new();
            lines.push(info);
            let data = RuntimeData { code_lines: lines, meta };
            let ghost dv = runtime_view(data);
            assert(dv.0 =~= seq![iv]);
            self.runtimes.push((to_string(runtime_name), data));
            proof {
                lemma_pairs_map_push(p, runtime_name@, dv);
                assert(runtime_pairs(self.runtimes@) =~= p.push((runtime_name@, dv)));
            }
        }
    }

    /// Adds a line of code to the entry point of a runtime (see `add_to_runtime_ex_inner`).
    pub fn add_to_runtime(&mut self, runtime_name: &str, code: String)
        requires
            old(self).wf(),
        ensures
            final(self).wf(),
            final(self).current_module_name@ == old(self).current_module_name@,
            final(self).runtimes_map() == old(self).runtimes_map().insert(
                runtime_name@,
                if old(self).runtimes_map().dom().contains(runtime_name@) {
                    (
                        old(self).runtimes_map()[runtime_name@].0.push(
                            (old(self).current_module_name@, code@, false),
                        ),
                        old(self).runtimes_map()[runtime_name@].1,
                    )
                } else {
                    (
                        seq![(old(self).current_module_name@, code@, false)],
                        (Seq::<char>::empty(), Seq::<char>::empty(), Seq::<char>::empty()),
                    )
                },
            ),
    {
        self.add_to_runtime_ex_inner(runtime_name, code, Self::empty_meta(), false)
    }

    /// Like `add_to_runtime`, with the line written once in the entry point.
    pub fn add_to_runtime_unique(&mut self, runtime_name: &str, code: String)
        requires
            old(self).wf(),
        ensures
            final(self).wf(),
            final(self).current_module_name@ == old(self).current_module_name@,
            final(self).runtimes_map() == old(self).runtimes_map().insert(
                runtime_name@,
                if old(self).runtimes_map().dom().contains(runtime_name@) {
                    (
                        old(self).runtimes_map()[runtime_name@].0.push(
                            (old(self).current_module_name@, code@, true),
                        ),
                        old(self).runtimes_map()[runtime_name@].1,
                    )
                } else {
                    (
                        seq![(old(self).current_module_name@, code@, true)],
                        (Seq::<char>::empty(), Seq::<char>::empty(), Seq::<char>::empty()),
                    )
                },
            ),
    {
        self.add_to_runtime_ex_inner(runtime_name, code, Self::empty_meta(), true)
    }

    /// Like `add_to_runtime`, with the way a new runtime is compiled.
    pub fn add_to_runtime_ex(&mut self, runtime_name: &str, code: String, meta: RuntimeMeta)
        requires
            old(self).wf(),
        ensures
            final(self).wf(),
            final(self).current_module_name@ == old(self).current_module_name@,
            final(self).runtimes_map() == old(self).runtimes_map().insert(
                runtime_name@,
                if old(self).runtimes_map().dom().contains(runtime_name@) {
                    (
                        old(self).runtimes_map()[runtime_name@].0.push(
                            (old(self).current_module_name@, code@, false),
                        ),
                        old(self).runtimes_map()[runtime_name@].1,
                    )
                } else {
                    (seq![(old(self).current_module_name@, code@, false)], meta_view(meta))
                },
            ),
    {
        self.add_to_runtime_ex_inner(runtime_name, code, meta, false)
    }

    /// Like `add_to_runtime_ex`, with the line written once in the entry point.
    pub fn add_to_runtime_ex_unique(&mut self, runtime_name: &str, code: String, meta: RuntimeMeta)
        requires
            old(self).wf(),
        ensures
            final(self).wf(),
            final(self).current_module_name@ == old(self).current_module_name@,
            final(self).runtimes_map() == old(self).runtimes_map().insert(
                runtime_name@,
                if old(self).runtimes_map().dom().contains(runtime_name@) {
                    (
                        old(self).runtimes_map()[runtime_name@].0.push(
                            (old(self).current_module_name@, code@, true),
                        ),
                        old(self).runtimes_map()[runtime_name@].1,
                    )
                } else {
                    (seq![(old(self).current_module_name@, code@, true)], meta_view(meta))
                },
            ),
    {
        self.add_to_runtime_ex_inner(runtime_name, code, meta, true)
    }
}

// ---------------------------------------------------------------- code reader and writer

/// One parameter of a function, or one field of a struct.
#[derive(Debug)]
pub struct UserInput {
    pub is_self: bool,
    pub name: String,
    pub ty: String,
}

/// What a function's signature says.
#[derive(Debug)]
pub struct FunctionSignature {
    pub name: String,
    pub is_pub: bool,
    pub is_async: bool,
    pub is_unsafe: bool,
    pub is_const: bool,
    pub inputs: Vec<UserInput>,
    pub return_ty: String,
}

pub open spec fn signature_pairs(v: Seq<(String, FunctionSignature)>) -> Seq<
    (Seq<char>, FunctionSignature),
> {
    Seq::new(v.len(), |i: int| (v[i].0@, v[i].1))
}

/// The signatures of the functions of the user's module that modules asked to read.
pub struct L0CodeReader {
    pub current_module_name: String,
    pub function_signatures: Vec<(String, FunctionSignature)>,
}

impl L0CodeReader {
    pub open spec fn wf(&self) -> bool {
        keys_unique(signature_pairs(self.function_signatures@))
    }

    pub open spec fn signatures(&self) -> Map<Seq<char>, FunctionSignature> {
        pairs_map(signature_pairs(self.function_signatures@))
    }

    pub fn new() -> (r: L0CodeReader)
        ensures
            r.wf(),
            r.signatures() == Map::<Seq<char>, FunctionSignature>::empty(),
            r.current_module_name@ == Seq::<char>::empty(),
    {
        let r = L0CodeReader { current_module_name: String::new(), function_signatures: Vec::new() };
        assert(signature_pairs(r.function_signatures@) =~= Seq::empty());
        r
    }

    /// The signature of the function `name`, if it was read.
    pub fn get_fn(&self, name: &str) -> (r: Option<&FunctionSignature>)
        requires
            self.wf(),
        ensures
            r matches Some(f) ==> self.signatures().dom().contains(name@) && *f
                == self.signatures()[name@],
            r is None ==> !self.signatures().dom().contains(name@),
    {
        let n = self.function_signatures.len();
        let ghost p = signature_pairs(self.function_signatures@);
        proof {
            lemma_pairs_map_dom(p, name@);
        }
        let mut i: usize = 0;
        while i < n
            invariant
                n == self.function_signatures@.len(),
                p == signature_pairs(self.function_signatures@),
                keys_unique(p),
                i <= n,
                forall|j: int| 0 <= j < i ==> p[j].0 != name@,
            decreases n - i,
        {
            if str_eq(self.function_signatures[i].0.as_str(), name) {
                proof {
                    lemma_pairs_map_index(p, i as int);
                }
                return Some(&self.function_signatures[i].1);
            }
            i = i + 1;
        }
        None
    }
}

/// Functions that modules ask to write, by module and then by `kind|signature`.
pub struct L0CodeWriter {
    pub current_module_name: String,
    pub functions: Vec<(String, StrMap)>,
}

impl L0CodeWriter {
    pub open spec fn wf(&self) -> bool {
        nested_wf(self.functions@)
    }

    pub open spec fn written(&self) -> Map<Seq<char>, Map<Seq<char>, Seq<char>>> {
        nested_view(self.functions@)
    }

    pub fn new() -> (r: L0CodeWriter)
        ensures
            r.wf(),
            r.written() == Map::<Seq<char>, Map<Seq<char>, Seq<char>>>::empty(),
            r.current_module_name@ == Seq::<char>::empty(),
    {
        let r = L0CodeWriter { current_module_name: String::new(), functions: Vec::new() };
        assert(nested_pairs(r.functions@) =~= Seq::empty());
        r
    }

    fn write_function(&mut self, sig: String, body: String, prefix: &str)
        requires
            old(self).wf(),
        ensures
            final(self).wf(),
            final(self).current_module_name@ == old(self).current_module_name@,
            final(self).written() == nested_put(
                old(self).written(),
                old(self).current_module_name@,
                prefix@ + "|"@ + sig@,
                body@,
            ),
    {
        let name = self.current_module_name.clone();
        let key = concat3(prefix, "|", sig.as_str());
        nested_insert(&mut self.functions, name.as_str(), key, body);
    }

    /// Writes a function inside the user's module.
    pub fn write_internal_fn(&mut self, sig: String, body: String)
        requires
            old(self).wf(),
        ensures
            final(self).wf(),
            final(self).current_module_name@ == old(self).current_module_name@,
            final(self).written() == nested_put(
                old(self).written(),
                old(self).current_module_name@,
                "module|"@ + sig@,
                body@,
            ),
    {
        proof {
            reveal_strlit("module");
            reveal_strlit("|");
            reveal_strlit("module|");
            assert("module"@ + "|"@ + sig@ =~= "module|"@ + sig@);
        }
        self.write_function(sig, body, "module");
    }

    /// Writes a function outside the user's module, callable from anywhere.
    pub fn write_global_fn(&mut self, sig: String, body: String)
        requires
            old(self).wf(),
        ensures
            final(self).wf(),
            final(self).current_module_name@ == old(self).current_module_name@,
            final(self).written() == nested_put(
                old(self).written(),
                old(self).current_module_name@,
                "global|"@ + sig@,
                body@,
            ),
    {
        proof {
            reveal_strlit("global");
            reveal_strlit("|");
            reveal_strlit("global|");
            assert("global"@ + "|"@ + sig@ =~= "global|"@ + sig@);
        }
        self.write_function(sig, body, "global");
    }
}

// ---------------------------------------------------------------- the object a module gets

/// Everything a level-2 module can reach while it runs.
pub struct LibraryObj {
    pub l0_kv_reader: L0KvReader,
    pub l0_core: L0Core,
    pub l0_append_file: L0AppendFile,
    pub l0_code_reader: L0CodeReader,
    pub l0_code_writer: L0CodeWriter,
    pub l0_runtime_creator: L0RuntimeCreator,
}

impl LibraryObj {
    pub open spec fn wf(&self) -> bool {
        &&& self.l0_kv_reader.data.wf()
        &&& self.l0_core.wf()
        &&& self.l0_code_reader.wf()
        &&& self.l0_code_writer.wf()
        &&& self.l0_runtime_creator.wf()
    }

    pub fn new() -> (r: LibraryObj)
        ensures
            r.wf(),
            r.l0_core.outputs() == Map::<Seq<char>, Map<Seq<char>, Seq<char>>>::empty(),
            r.l0_core.compiler_error_message@ == Seq::<char>::empty(),
            r.l0_core.compiler_warning_message@ == Seq::<char>::empty(),
            r.l0_append_file.entries() == Seq::<EntryV>::empty(),
            r.l0_kv_reader.data@ == Map::<Seq<char>, Seq<char>>::empty(),
            r.l0_code_reader.signatures() == Map::<Seq<char>, FunctionSignature>::empty(),
            r.l0_code_writer.written() == Map::<Seq<char>, Map<Seq<char>, Seq<char>>>::empty(),
    {
        LibraryObj {
            l0_kv_reader: L0KvReader::new(),
            l0_core: L0Core::new(),
            l0_append_file: L0AppendFile::new(),
            l0_code_reader: L0CodeReader::new(),
            l0_code_writer: L0CodeWriter::new(),
            l0_runtime_creator: L0RuntimeCreator::new(),
        }
    }

    /// Names the module whose config function runs next, so that what it sets is recorded
    /// under its name.
    pub fn set_current_module(&mut self, name: &str)
        ensures
            final(self).l0_append_file.current_module_name@ == name@,
            final(self).l0_core.current_module_name@ == name@,
            final(self).l0_kv_reader.current_module_name@ == name@,
            final(self).l0_code_writer.current_module_name@ == name@,
            final(self).l0_runtime_creator.current_module_name@ == name@,
            final(self).l0_append_file.entries() == old(self).l0_append_file.entries(),
            final(self).l0_core.outputs() == old(self).l0_core.outputs(),
            final(self).l0_core.module_outputs@ == old(self).l0_core.module_outputs@,
            final(self).l0_core.compiler_error_message@ == old(self).l0_core.compiler_error_message@,
            final(self).l0_core.compiler_warning_message@
                == old(self).l0_core.compiler_warning_message@,
            final(self).l0_core.lvl3_module_name@ == old(self).l0_core.lvl3_module_name@,
            final(self).l0_core.crate_name@ == old(self).l0_core.crate_name@,
            final(self).l0_kv_reader.data == old(self).l0_kv_reader.data,
            final(self).l0_code_reader == old(self).l0_code_reader,
            final(self).l0_code_writer.functions@ == old(self).l0_code_writer.functions@,
            final(self).l0_runtime_creator.runtimes@ == old(self).l0_runtime_creator.runtimes@,
    {
        self.l0_append_file.current_module_name = to_string(name);
        self.l0_core.current_module_name = to_string(name);
        self.l0_kv_reader.current_module_name = to_string(name);
        self.l0_code_writer.current_module_name = to_string(name);
        self.l0_runtime_creator.current_module_name = to_string(name);
    }
}

} // verus!
