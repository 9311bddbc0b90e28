use vstd::prelude::*;
use vstd::string::*;

use crate::capabilities::lemma_first_module;
use crate::kv::{lemma_pairs_map_update, pairs_map, str_pairs, StrMap};
use crate::level0::{find_named, inner_or_empty, lemma_find_named, nested_pairs, L0Core};
use crate::module_loading::{outputs_view, HiraModule2, OutputType, OutputV};
use crate::shared_files::{first_module, HiraConfig};
use crate::module_text::lex_tokens;
use crate::text::{concat3, to_string};

verus! {

/// Outputs by module name and then by key.
pub type Outs = Map<Seq<char>, Map<Seq<char>, Seq<char>>>;

/// `base` with the bindings of `extra` whose keys it lacks.
pub open spec fn add_absent(
    base: Map<Seq<char>, Seq<char>>,
    extra: Map<Seq<char>, Seq<char>>,
) -> Map<Seq<char>, Seq<char>> {
    extra.union_prefer_right(base)
}

/// The outputs after the defaults of the named module are filled in: its outputs are made
/// when absent, the modules it takes outputs from get their defaults first, and then each
/// output it declares (all outputs of a module, one output of a module, or a constant) is
/// added where its key is not set yet; the first declaration of a key wins. Chains of
/// modules are followed at most `depth` deep.
pub open spec fn defaults_for(mods: Seq<HiraModule2>, outs: Outs, dep: Seq<char>, depth: nat) -> Outs
    decreases depth, 0nat,
{
    if depth == 0 {
        outs
    } else {
        match first_module(mods, dep) {
            Some(i) => if 0 <= i < mods.len() {
                let o1 = if outs.dom().contains(dep) {
                    outs
                } else {
                    outs.insert(dep, Map::empty())
                };
                let r = defaults_of_outputs(
                    mods,
                    o1,
                    outputs_view(mods[i].outputs@),
                    (depth - 1) as nat,
                );
                r.0.insert(dep, add_absent(inner_or_empty(r.0, dep), r.1))
            } else {
                outs
            },
            None => outs,
        }
    }
}

/// The outputs after the modules that the declarations take outputs from get their
/// defaults, with the bindings the declarations give, the first one of a key winning.
pub open spec fn defaults_of_outputs(
    mods: Seq<HiraModule2>,
    outs: Outs,
    outputs: Seq<OutputV>,
    depth: nat,
) -> (Outs, Map<Seq<char>, Seq<char>>)
    decreases depth, outputs.len(),
{
    if outputs.len() == 0 {
        (outs, Map::empty())
    } else {
        let r = defaults_of_outputs(mods, outs, outputs.drop_last(), depth);
        match outputs.last() {
            OutputV::All(m) => {
                let o = defaults_for(mods, r.0, m, depth);
                (o, add_absent(r.1, inner_or_empty(o, m)))
            },
            OutputV::Specific(m, k) => {
                let o = defaults_for(mods, r.0, m, depth);
                (
                    o,
                    if inner_or_empty(o, m).dom().contains(k) {
                        add_absent(r.1, map![k => inner_or_empty(o, m)[k]])
                    } else {
                        r.1
                    },
                )
            },
            OutputV::Const(k, v) => (r.0, add_absent(r.1, map![k => v])),
        }
    }
}

/// Every output of `a` is in `b` with the same value.
pub open spec fn keeps(a: Outs, b: Outs) -> bool {
    forall|n: Seq<char>|
        #[trigger] a.dom().contains(n) ==> b.dom().contains(n) && forall|k: Seq<char>|
            #[trigger] a[n].dom().contains(k) ==> b[n].dom().contains(k) && b[n][k] == a[n][k]
}

proof fn lemma_keeps_trans(a: Outs, b: Outs, c: Outs)
    requires
        keeps(a, b),
        keeps(b, c),
    ensures
        keeps(a, c),
{
    assert forall|n: Seq<char>| #[trigger] a.dom().contains(n) implies c.dom().contains(n)
        && forall|k: Seq<char>|
        #[trigger] a[n].dom().contains(k) ==> c[n].dom().contains(k) && c[n][k] == a[n][k] by {
        assert(b.dom().contains(n));
        assert forall|k: Seq<char>| #[trigger] a[n].dom().contains(k) implies c[n].dom().contains(
            k,
        ) && c[n][k] == a[n][k] by {
            assert(b[n].dom().contains(k));
        }
    }
}

proof fn lemma_defaults_keep(mods: Seq<HiraModule2>, outs: Outs, dep: Seq<char>, depth: nat)
    ensures
        keeps(outs, defaults_for(mods, outs, dep, depth)),
    decreases depth, 0nat,
{
    if depth > 0 {
        match first_module(mods, dep) {
            Some(i) => if 0 <= i < mods.len() {
                let o1 = if outs.dom().contains(dep) {
                    outs
                } else {
                    outs.insert(dep, Map::empty())
                };
                assert(keeps(outs, o1));
                let ov = outputs_view(mods[i].outputs@);
                lemma_list_keep(mods, o1, ov, (depth - 1) as nat);
                let r = defaults_of_outputs(mods, o1, ov, (depth - 1) as nat);
                lemma_keeps_trans(outs, o1, r.0);
                assert(o1.dom().contains(dep));
                assert(r.0.dom().contains(dep));
                let f = r.0.insert(dep, add_absent(inner_or_empty(r.0, dep), r.1));
                assert(keeps(r.0, f));
                lemma_keeps_trans(outs, r.0, f);
            } else {
            },
            None => {},
        }
    }
}

proof fn lemma_list_keep(mods: Seq<HiraModule2>, outs: Outs, outputs: Seq<OutputV>, depth: nat)
    ensures
        keeps(outs, defaults_of_outputs(mods, outs, outputs, depth).0),
    decreases depth, outputs.len(),
{
    if outputs.len() > 0 {
        lemma_list_keep(mods, outs, outputs.drop_last(), depth);
        let r = defaults_of_outputs(mods, outs, outputs.drop_last(), depth);
        match outputs.last() {
            OutputV::All(m) => {
                lemma_defaults_keep(mods, r.0, m, depth);
                lemma_keeps_trans(outs, r.0, defaults_for(mods, r.0, m, depth));
            },
            OutputV::Specific(m, k) => {
                lemma_defaults_keep(mods, r.0, m, depth);
                lemma_keeps_trans(outs, r.0, defaults_for(mods, r.0, m, depth));
            },
            OutputV::Const(k, v) => {},
        }
    }
}

/// Filling in defaults never replaces an output that is set: every output that a module
/// had before keeps its value.
pub proof fn law_defaults_never_override(mods: Seq<HiraModule2>, outs: Outs, dep: Seq<char>)
    ensures
        keeps(outs, defaults_for(mods, outs, dep, mods.len())),
{
    lemma_defaults_keep(mods, outs, dep, mods.len());
}

proof fn lemma_list_has_consts(mods: Seq<HiraModule2>, outs: Outs, outputs: Seq<OutputV>, depth: nat)
    ensures
        forall|j: int|
            0 <= j < outputs.len() && (#[trigger] outputs[j]) is Const ==> defaults_of_outputs(
                mods,
                outs,
                outputs,
                depth,
            ).1.dom().contains(outputs[j]->Const_0),
    decreases outputs.len(),
{
    if outputs.len() > 0 {
        let d = outputs.drop_last();
        lemma_list_has_consts(mods, outs, d, depth);
        assert forall|j: int|
            0 <= j < outputs.len() && (#[trigger] outputs[j]) is Const implies defaults_of_outputs(
                mods,
                outs,
                outputs,
                depth,
            ).1.dom().contains(outputs[j]->Const_0) by {
            if j < outputs.len() - 1 {
                assert(d[j] == outputs[j]);
            }
        }
    }
}

/// Once the defaults of a module are filled in, each constant output that it declares is
/// set, to the value set before or else to a declared default.
#[verifier::rlimit(30)]
pub proof fn law_declared_constants_are_set(mods: Seq<HiraModule2>, outs: Outs, dep: Seq<char>)
    requires
        first_module(mods, dep) is Some,
    ensures
        ({
            let i = first_module(mods, dep)->0;
            let ov = outputs_view(mods[i].outputs@);
            let r = defaults_for(mods, outs, dep, mods.len());
            forall|j: int|
                0 <= j < ov.len() && (#[trigger] ov[j]) is Const ==> r.dom().contains(dep)
                    && r[dep].dom().contains(ov[j]->Const_0)
        }),
{
    lemma_first_module(mods, dep);
    let i = first_module(mods, dep)->0;
    let ov = outputs_view(mods[i].outputs@);
    assert(mods.len() > 0);
    let o1 = if outs.dom().contains(dep) {
        outs
    } else {
        outs.insert(dep, Map::empty())
    };
    lemma_list_has_consts(mods, o1, ov, (mods.len() - 1) as nat);
    let r0 = defaults_of_outputs(mods, o1, ov, (mods.len() - 1) as nat);
    let merged = add_absent(inner_or_empty(r0.0, dep), r0.1);
    assert(defaults_for(mods, outs, dep, mods.len()) == r0.0.insert(dep, merged));
    assert forall|j: int|
        0 <= j < ov.len() && (#[trigger] ov[j]) is Const implies merged.dom().contains(
            ov[j]->Const_0,
        ) by {
        assert(r0.1.dom().contains(ov[j]->Const_0));
    }
}

/// Adds to `dst` the bindings of `src` whose keys it lacks.
fn add_absent_into(dst: &mut StrMap, src: &StrMap)
    requires
        old(dst).wf(),
        src.wf(),
    ensures
        final(dst).wf(),
        final(dst)@ == add_absent(old(dst)@, src@),
{
    let n = src.entries.len();
    let ghost p = str_pairs(src.entries@);
    let mut j: usize = 0;
    assert(pairs_map(p.subrange(0, 0)).union_prefer_right(dst@) =~= dst@);
    while j < n
        invariant
            n == src.entries@.len(),
            p == str_pairs(src.entries@),
            crate::kv::keys_unique(p),
            j <= n,
            dst.wf(),
            dst@ == pairs_map(p.subrange(0, j as int)).union_prefer_right(old(dst)@),
        decreases n - j,
    {
        let ghost q = p.subrange(0, j + 1);
        assert(q.drop_last() =~= p.subrange(0, j as int));
        assert(q.last() == p[j as int]);
        proof {
            crate::kv::lemma_pairs_map_dom(p.subrange(0, j as int), p[j as int].0);
            if pairs_map(p.subrange(0, j as int)).dom().contains(p[j as int].0) {
                let i = choose|i: int| 0 <= i < j && p.subrange(0, j as int)[i].0 == p[j as int].0;
                assert(p[i].0 == p[j as int].0);
            }
        }
        if !dst.contains_key(src.entries[j].0.as_str()) {
            dst.insert(src.entries[j].0.clone(), src.entries[j].1.clone());
        }
        assert(dst@ =~= pairs_map(q).union_prefer_right(old(dst)@));
        j = j + 1;
    }
    assert(p.subrange(0, n as int) =~= p);
    assert(pairs_map(p) == src@);
}

impl L0Core {
    /// Makes the outputs of the named module when absent.
    fn ensure_module(&mut self, name: &str)
        requires
            old(self).wf(),
        ensures
            final(self).wf(),
            final(self).same_names(old(self)),
            final(self).outputs() == (if old(self).outputs().dom().contains(name@) {
                old(self).outputs()
            } else {
                old(self).outputs().insert(name@, Map::empty())
            }),
    {
        let i = find_named(&self.module_outputs, name);
        let ghost p = nested_pairs(self.module_outputs@);
        proof {
            lemma_find_named(self.module_outputs@, name@, i as int);
        }
        if i == self.module_outputs.len() {
            let inner = StrMap::new();
            self.module_outputs.push((name.to_string(), inner));
            proof {
                crate::kv::lemma_pairs_map_push(p, name@, inner@);
                assert(nested_pairs(self.module_outputs@) =~= p.push((name@, inner@)));
                assert forall|j: int| 0 <= j < self.module_outputs@.len() implies (#[trigger] self.module_outputs@[j]).1.wf() by {
                    if j < i {
                        assert(self.module_outputs@[j] == old(self).module_outputs@[j]);
                    }
                }
            }
        }
    }

    /// The outputs of the named module, if it has any.
    fn module_map(&self, name: &str) -> (r: Option<&StrMap>)
        requires
            self.wf(),
        ensures
            match r {
                Some(m) => self.outputs().dom().contains(name@) && m@ == self.outputs()[name@]
                    && m.wf(),
                None => !self.outputs().dom().contains(name@),
            },
    {
        let i = find_named(&self.module_outputs, name);
        proof {
            lemma_find_named(self.module_outputs@, name@, i as int);
        }
        if i == self.module_outputs.len() {
            None
        } else {
            Some(&self.module_outputs[i].1)
        }
    }

    /// Adds to the outputs of the named module the bindings of `src` whose keys it lacks.
    fn merge_absent(&mut self, name: &str, src: &StrMap)
        requires
            old(self).wf(),
            src.wf(),
        ensures
            final(self).wf(),
            final(self).same_names(old(self)),
            final(self).outputs() == (if old(self).outputs().dom().contains(name@) {
                old(self).outputs().insert(
                    name@,
                    add_absent(old(self).outputs()[name@], src@),
                )
            } else {
                old(self).outputs()
            }),
    {
        let i = find_named(&self.module_outputs, name);
        let ghost p = nested_pairs(self.module_outputs@);
        proof {
            lemma_find_named(self.module_outputs@, name@, i as int);
        }
        if i == self.module_outputs.len() {
            return ;
        }
        let (n, mut inner) = self.module_outputs.remove(i);
        add_absent_into(&mut inner, src);
        self.module_outputs.insert(i, (n, inner));
        proof {
            lemma_pairs_map_update(p, i as int, inner@);
            assert(nested_pairs(self.module_outputs@) =~= p.update(i as int, (p[i as int].0, inner@)));
            assert forall|j: int| 0 <= j < self.module_outputs@.len() implies (#[trigger] self.module_outputs@[j]).1.wf() by {
                if j != i {
                    assert(self.module_outputs@[j] == old(self).module_outputs@[j]);
                }
            }
        }
    }

    #[verifier::rlimit(40)]
    fn defaults_inner(&mut self, conf: &HiraConfig, dep: &str, depth: usize)
        requires
            old(self).wf(),
        ensures
            final(self).wf(),
            final(self).same_names(old(self)),
            final(self).outputs() == defaults_for(
                conf.modules2@,
                old(self).outputs(),
                dep@,
                depth as nat,
            ),
        decreases depth, 0nat,
    {
        if depth == 0 {
            return ;
        }
        proof {
            lemma_first_module(conf.modules2@, dep@);
        }
        let module = match conf.get_mod2(dep) {
            Some(m) => m,
            None => {
                return ;
            },
        };
        self.ensure_module(dep);
        let ghost o1 = self.outputs();
        assert(o1.dom().contains(dep@));
        let ins = self.defaults_of_list(conf, &module.outputs, module.outputs.len(), depth - 1);
        proof {
            let ov = outputs_view(module.outputs@);
            assert(ov.subrange(0, ov.len() as int) =~= ov);
            lemma_list_keep(conf.modules2@, o1, ov, (depth - 1) as nat);
            assert(self.outputs().dom().contains(dep@));
            assert(inner_or_empty(self.outputs(), dep@) == self.outputs()[dep@]);
        }
        self.merge_absent(dep, &ins);
    }

    /// Fills in the defaults of the modules that the first `upto` declarations take outputs
    /// from, and gives back the bindings the declarations give.
    fn defaults_of_list(
        &mut self,
        conf: &HiraConfig,
        outputs: &Vec<OutputType>,
        upto: usize,
        depth: usize,
    ) -> (r: StrMap)
        requires
            old(self).wf(),
            upto <= outputs@.len(),
        ensures
            final(self).wf(),
            final(self).same_names(old(self)),
            r.wf(),
            (final(self).outputs(), r@) == defaults_of_outputs(
                conf.modules2@,
                old(self).outputs(),
                outputs_view(outputs@).subrange(0, upto as int),
                depth as nat,
            ),
        decreases depth, upto,
    {
        let ghost ov = outputs_view(outputs@).subrange(0, upto as int);
        if upto == 0 {
            return StrMap::new();
        }
        let mut ins = self.defaults_of_list(conf, outputs, upto - 1, depth);
        assert(ov.drop_last() =~= outputs_view(outputs@).subrange(0, upto - 1));
        match &outputs[upto - 1] {
            OutputType::AllFromModule(m) => {
                self.defaults_inner(conf, m.as_str(), depth);
                match self.module_map(m.as_str()) {
                    Some(mm) => {
                        add_absent_into(&mut ins, mm);
                    },
                    None => {
                        assert(add_absent(ins@, Map::empty()) =~= ins@);
                    },
                }
            },
            OutputType::SpecificFromModule(m, key) => {
                self.defaults_inner(conf, m.as_str(), depth);
                match self.module_map(m.as_str()) {
                    Some(mm) => {
                        match mm.get(key.as_str()) {
                            Some(v) => {
                                let ghost before = ins@;
                                if !ins.contains_key(key.as_str()) {
                                    ins.insert(key.clone(), v);
                                }
                                assert(ins@ =~= add_absent(before, map![key@ => v@]));
                            },
                            None => {},
                        }
                    },
                    None => {},
                }
            },
            OutputType::SpecificConst(key, v) => {
                let ghost before = ins@;
                if !ins.contains_key(key.as_str()) {
                    ins.insert(key.clone(), v.clone());
                }
                assert(ins@ =~= add_absent(before, map![key@ => v@]));
            },
        }
        ins
    }

    /// Fills in the default outputs of the named module and of the modules it takes
    /// outputs from (see `defaults_for`); chains of modules are followed as deep as there
    /// are modules, which is every chain of a graph without cycles.
    pub fn set_defaults_recursively(&mut self, conf: &HiraConfig, dep_name: &str)
        requires
            old(self).wf(),
        ensures
            final(self).wf(),
            final(self).same_names(old(self)),
            final(self).outputs() == defaults_for(
                conf.modules2@,
                old(self).outputs(),
                dep_name@,
                conf.modules2@.len(),
            ),
    {
        self.defaults_inner(conf, dep_name, conf.modules2.len());
    }
}

// ---------------------------------------------------------------- declared outputs

/// Whether the declarations name the output `k`: as a constant, as one output taken from a
/// module, or among all the outputs of a module it takes them all from. Chains of modules
/// are followed at most `depth` deep.
#[verifier::opaque]
pub open spec fn declares_output(
    mods: Seq<HiraModule2>,
    outputs: Seq<OutputV>,
    k: Seq<char>,
    depth: nat,
) -> bool
    decreases depth, outputs.len(),
{
    if outputs.len() == 0 {
        false
    } else {
        declares_output(mods, outputs.drop_last(), k, depth) || match outputs.last() {
            OutputV::Const(c, _) => c == k,
            OutputV::Specific(_, key) => key == k,
            OutputV::All(m) => depth > 0 && match first_module(mods, m) {
                Some(i) => 0 <= i < mods.len() && declares_output(
                    mods,
                    outputs_view(mods[i].outputs@),
                    k,
                    (depth - 1) as nat,
                ),
                None => false,
            },
        }
    }
}

/// Whether the named module declares the output `k`, following chains `depth` deep.
pub open spec fn module_declares(mods: Seq<HiraModule2>, m: Seq<char>, k: Seq<char>, depth: nat) -> bool {
    depth > 0 && match first_module(mods, m) {
        Some(i) => 0 <= i < mods.len() && declares_output(
            mods,
            outputs_view(mods[i].outputs@),
            k,
            (depth - 1) as nat,
        ),
        None => false,
    }
}

fn declares_output_exec(conf: &HiraConfig, outputs: &Vec<OutputType>, upto: usize, k: &str, depth: usize) -> (r: bool)
    requires
        upto <= outputs@.len(),
    ensures
        r == declares_output(
            conf.modules2@,
            outputs_view(outputs@).subrange(0, upto as int),
            k@,
            depth as nat,
        ),
    decreases depth, upto,
{
    let ghost mods = conf.modules2@;
    let ghost ov = outputs_view(outputs@).subrange(0, upto as int);
    if upto == 0 {
        proof {
            reveal_with_fuel(declares_output, 1);
        }
        return false;
    }
    let prev = declares_output_exec(conf, outputs, upto - 1, k, depth);
    let here = match &outputs[upto - 1] {
        OutputType::SpecificConst(c, _) => crate::text::str_eq(c.as_str(), k),
        OutputType::SpecificFromModule(_, key) => crate::text::str_eq(key.as_str(), k),
        OutputType::AllFromModule(m) => module_declares_exec(conf, m.as_str(), k, depth),
    };
    proof {
        assert(ov.drop_last() =~= outputs_view(outputs@).subrange(0, upto - 1));
        assert(ov.last() == outputs_view(outputs@)[upto - 1]);
        reveal_with_fuel(declares_output, 1);
    }
    prev || here
}

fn module_declares_exec(conf: &HiraConfig, m: &str, k: &str, depth: usize) -> (r: bool)
    ensures
        r == module_declares(conf.modules2@, m@, k@, depth as nat),
    decreases depth, 0nat,
{
    if depth == 0 {
        return false;
    }
    proof {
        lemma_first_module(conf.modules2@, m@);
    }
    match conf.get_mod2(m) {
        Some(module) => {
            let r = declares_output_exec(conf, &module.outputs, module.outputs.len(), k, depth - 1);
            proof {
                let w = outputs_view(module.outputs@);
                assert(w.subrange(0, w.len() as int) =~= w);
            }
            r
        },
        None => false,
    }
}

impl HiraModule2 {
    /// Whether the module declares the output `k` (see `declares_output`); chains of
    /// modules are followed as deep as there are modules.
    pub fn has_output(&self, k: &str, conf: &HiraConfig) -> (r: bool)
        ensures
            r == declares_output(
                conf.modules2@,
                outputs_view(self.outputs@),
                k@,
                conf.modules2@.len(),
            ),
    {
        let r = declares_output_exec(conf, &self.outputs, self.outputs.len(), k, conf.modules2.len());
        proof {
            let w = outputs_view(self.outputs@);
            assert(w.subrange(0, w.len() as int) =~= w);
        }
        r
    }
}

/// The outputs as they are stored: module name, then (key, value) pairs in order.
pub open spec fn raw_outputs(v: Seq<(String, StrMap)>) -> Seq<(Seq<char>, Seq<(Seq<char>, Seq<char>)>)> {
    Seq::new(v.len(), |i: int| (v[i].0@, str_pairs(v[i].1.entries@)))
}

/// The refusal of the first output key, in order, that the module does not declare.
#[verifier::opaque]
pub open spec fn first_undeclared(
    mods: Seq<HiraModule2>,
    name: Seq<char>,
    outputs: Seq<OutputV>,
    kvs: Seq<(Seq<char>, Seq<char>)>,
) -> Option<Seq<char>>
    decreases kvs.len(),
{
    if kvs.len() == 0 {
        None
    } else {
        match first_undeclared(mods, name, outputs, kvs.drop_last()) {
            Some(m) => Some(m),
            None => if declares_output(mods, outputs, kvs.last().0, mods.len()) {
                None
            } else {
                Some(
                    "Detected output '"@ + kvs.last().0 + "' from intermediate module "@ + name
                        + " but this module did not specify such an output"@,
                )
            },
        }
    }
}

/// The refusal of the outputs of one module: a module that does not exist, or an output
/// it does not declare.
pub open spec fn module_outputs_refusal(
    mods: Seq<HiraModule2>,
    entry: (Seq<char>, Seq<(Seq<char>, Seq<char>)>),
) -> Option<Seq<char>> {
    match first_module(mods, entry.0) {
        None => Some(
            "Detected outputs from intermediate module "@ + entry.0
                + " but this module doesn't exist"@,
        ),
        Some(i) => if 0 <= i < mods.len() {
            first_undeclared(mods, entry.0, outputs_view(mods[i].outputs@), entry.1)
        } else {
            None
        },
    }
}

/// The refusal of the first module, in order, whose outputs do not belong.
#[verifier::opaque]
pub open spec fn outputs_refusal(
    mods: Seq<HiraModule2>,
    raw: Seq<(Seq<char>, Seq<(Seq<char>, Seq<char>)>)>,
) -> Option<Seq<char>>
    decreases raw.len(),
{
    if raw.len() == 0 {
        None
    } else {
        match outputs_refusal(mods, raw.drop_last()) {
            Some(m) => Some(m),
            None => module_outputs_refusal(mods, raw.last()),
        }
    }
}

impl L0Core {
    /// Fills in the defaults from the level-2 module on (see `set_defaults_recursively`),
    /// then checks that every module with outputs exists and declares each of its outputs;
    /// the first refusal in the order the outputs are stored is given.
    pub fn verify_outputs_and_set_defaults(&mut self, conf: &HiraConfig, first_lvl2_dep: &str) -> (r:
        Result<(), String>)
        requires
            old(self).wf(),
        ensures
            final(self).wf(),
            final(self).same_names(old(self)),
            final(self).outputs() == defaults_for(
                conf.modules2@,
                old(self).outputs(),
                first_lvl2_dep@,
                conf.modules2@.len(),
            ),
            match outputs_refusal(conf.modules2@, raw_outputs(final(self).module_outputs@)) {
                Some(m) => r matches Err(e) && e@ == m,
                None => r is Ok,
            },
    {
        self.set_defaults_recursively(conf, first_lvl2_dep);
        check_outputs(conf, &self.module_outputs)
    }
}

fn check_module_keys(conf: &HiraConfig, name: &str, module: &HiraModule2, kv: &StrMap) -> (r: Result<
    (),
    String,
>)
    ensures
        match first_undeclared(conf.modules2@, name@, outputs_view(module.outputs@), str_pairs(kv.entries@)) {
            Some(m) => r matches Err(e) && e@ == m,
            None => r is Ok,
        },
{
    let ghost mods = conf.modules2@;
    let ghost kvs = str_pairs(kv.entries@);
    let ghost ov = outputs_view(module.outputs@);
    let m = kv.entries.len();
    let mut k: usize = 0;
    assert(kvs.subrange(0, 0) =~= Seq::<(Seq<char>, Seq<char>)>::empty());
    proof {
        reveal(first_undeclared);
    }
    while k < m
        invariant
            m == kv.entries@.len(),
            kvs == str_pairs(kv.entries@),
            mods == conf.modules2@,
            ov == outputs_view(module.outputs@),
            k <= m,
            first_undeclared(mods, name@, ov, kvs.subrange(0, k as int)) is None,
        decreases m - k,
    {
        let ghost ks = kvs.subrange(0, k + 1);
        proof {
            reveal(first_undeclared);
        }
        assert(ks.drop_last() =~= kvs.subrange(0, k as int));
        assert(ks.last() == kvs[k as int]);
        let key = &kv.entries[k].0;
        if !module.has_output(key.as_str(), conf) {
            let mut msg = crate::text::concat3(
                "Detected output '",
                key.as_str(),
                "' from intermediate module ",
            );
            msg.append(name);
            msg.append(" but this module did not specify such an output");
            proof {
                lemma_first_undeclared_prefix(mods, name@, ov, kvs, k + 1);
            }
            return Err(msg);
        }
        k = k + 1;
    }
    assert(kvs.subrange(0, m as int) =~= kvs);
    Ok(())
}

fn check_outputs(conf: &HiraConfig, outs: &Vec<(String, StrMap)>) -> (r: Result<(), String>)
    ensures
        match outputs_refusal(conf.modules2@, raw_outputs(outs@)) {
            Some(m) => r matches Err(e) && e@ == m,
            None => r is Ok,
        },
{
    let ghost raw = raw_outputs(outs@);
    let ghost mods = conf.modules2@;
    let n = outs.len();
    let mut i: usize = 0;
    proof {
        assert(raw.subrange(0, 0) =~= Seq::<(Seq<char>, Seq<(Seq<char>, Seq<char>)>)>::empty());
        reveal(outputs_refusal);
    }
    while i < n
        invariant
            n == outs@.len(),
            raw == raw_outputs(outs@),
            mods == conf.modules2@,
            i <= n,
            outputs_refusal(mods, raw.subrange(0, i as int)) is None,
        decreases n - i,
    {
        let r = check_module_outputs(conf, &outs[i].0, &outs[i].1);
        proof {
            let sub = raw.subrange(0, i + 1);
            assert(sub.drop_last() =~= raw.subrange(0, i as int));
            assert(sub.last() == raw[i as int]);
            assert(outputs_refusal(mods, sub) == module_outputs_refusal(mods, raw[i as int])) by {
                reveal(outputs_refusal);
            }
        }
        if r.is_err() {
            proof {
                lemma_outputs_refusal_prefix(mods, raw, i + 1);
            }
            return r;
        }
        i = i + 1;
    }
    assert(raw.subrange(0, n as int) =~= raw);
    r_ok()
}

fn r_ok() -> (r: Result<(), String>)
    ensures
        r is Ok,
{
    Ok(())
}

fn check_module_outputs(conf: &HiraConfig, name: &String, kv: &StrMap) -> (r: Result<(), String>)
    ensures
        match module_outputs_refusal(conf.modules2@, (name@, str_pairs(kv.entries@))) {
            Some(m) => r matches Err(e) && e@ == m,
            None => r is Ok,
        },
{
    proof {
        lemma_first_module(conf.modules2@, name@);
    }
    match conf.get_mod2(name.as_str()) {
        Some(module) => check_module_keys(conf, name.as_str(), module, kv),
        None => Err(
            crate::text::concat3(
                "Detected outputs from intermediate module ",
                name.as_str(),
                " but this module doesn't exist",
            ),
        ),
    }
}

proof fn lemma_outputs_refusal_prefix(
    mods: Seq<HiraModule2>,
    raw: Seq<(Seq<char>, Seq<(Seq<char>, Seq<char>)>)>,
    j: int,
)
    requires
        0 <= j <= raw.len(),
        outputs_refusal(mods, raw.subrange(0, j)) is Some,
    ensures
        outputs_refusal(mods, raw) == outputs_refusal(mods, raw.subrange(0, j)),
    decreases raw.len(),
{
    reveal(outputs_refusal);
    if j < raw.len() {
        assert(raw.drop_last().subrange(0, j) =~= raw.subrange(0, j));
        lemma_outputs_refusal_prefix(mods, raw.drop_last(), j);
    } else {
        assert(raw.subrange(0, j) =~= raw);
    }
}

proof fn lemma_first_undeclared_prefix(
    mods: Seq<HiraModule2>,
    name: Seq<char>,
    ov: Seq<OutputV>,
    kvs: Seq<(Seq<char>, Seq<char>)>,
    j: int,
)
    requires
        0 <= j <= kvs.len(),
        first_undeclared(mods, name, ov, kvs.subrange(0, j)) is Some,
    ensures
        first_undeclared(mods, name, ov, kvs) == first_undeclared(mods, name, ov, kvs.subrange(0, j)),
    decreases kvs.len(),
{
    reveal(first_undeclared);
    if j < kvs.len() {
        assert(kvs.drop_last().subrange(0, j) =~= kvs.subrange(0, j));
        lemma_first_undeclared_prefix(mods, name, ov, kvs.drop_last(), j);
    } else {
        assert(kvs.subrange(0, j) =~= kvs);
    }
}

// ---------------------------------------------------------------- resolving outputs

/// The outputs and the resolved outputs after the declarations of a level-3 module, read in
/// order, take their values out: all outputs of a module are moved over (replacing resolved
/// values) and end the reading; one output of a module is moved over when it is set.
pub open spec fn resolved_with(
    outs: Outs,
    res: Map<Seq<char>, Seq<char>>,
    outputs: Seq<OutputV>,
) -> (Outs, Map<Seq<char>, Seq<char>>)
    decreases outputs.len(),
{
    if outputs.len() == 0 {
        (outs, res)
    } else {
        let rest = outputs.subrange(1, outputs.len() as int);
        match outputs[0] {
            OutputV::All(o) => (outs.remove(o), res.union_prefer_right(inner_or_empty(outs, o))),
            OutputV::Specific(o, k) => {
                let outs2 = if outs.dom().contains(o) {
                    outs.insert(o, outs[o].remove(k))
                } else {
                    outs
                };
                let res2 = if inner_or_empty(outs, o).dom().contains(k) {
                    res.insert(k, inner_or_empty(outs, o)[k])
                } else {
                    res
                };
                resolved_with(outs2, res2, rest)
            },
            OutputV::Const(_, _) => resolved_with(outs, res, rest),
        }
    }
}

/// Whether a declaration is a constant (which a level-3 module does not have).
pub open spec fn has_const(outputs: Seq<OutputV>) -> bool {
    exists|i: int| 0 <= i < outputs.len() && outputs[i] is Const
}

impl L0Core {
    /// Gives a level-3 module the outputs it declares: the level-2 module it depends on is
    /// found, the defaults are filled in and the outputs checked (see
    /// `verify_outputs_and_set_defaults`), then the declared outputs are moved into the
    /// module's resolved outputs (see `resolved_with`).
    pub fn resolve_outputs(&mut self, conf: &HiraConfig, module: &mut HiraModule2) -> (r: Result<
        (),
        String,
    >)
        requires
            old(self).wf(),
            old(module).resolved_outputs.wf(),
            !has_const(outputs_view(old(module).outputs@)),
        ensures
            final(self).wf(),
            final(self).same_names(old(self)),
            final(module).resolved_outputs.wf(),
            final(module).name@ == old(module).name@,
            final(module).outputs@ == old(module).outputs@,
            match old(module).lvl3_module_depends_on {
                None => (r matches Err(m) && m@ == "Detected "@ + old(module).name@ + " as "@
                    + crate::module_loading::level_name(old(module).level)
                    + ", but failed to find a level2 module's input in the config function signature"@)
                    && final(self).outputs() == old(self).outputs()
                    && final(module).resolved_outputs@ == old(module).resolved_outputs@,
                Some(d) => {
                    let filled = defaults_for(
                        conf.modules2@,
                        old(self).outputs(),
                        d@,
                        conf.modules2@.len(),
                    );
                    &&& r is Ok ==> (final(self).outputs(), final(module).resolved_outputs@)
                        == resolved_with(
                        filled,
                        old(module).resolved_outputs@,
                        outputs_view(old(module).outputs@),
                    )
                    &&& r matches Err(m) ==> final(self).outputs() == filled && outputs_refusal(
                        conf.modules2@,
                        raw_outputs(final(self).module_outputs@),
                    ) == Some(m@) && final(module).resolved_outputs@
                        == old(module).resolved_outputs@
                },
            },
    {
        let lvl2 = module.level3_get_depends_on(module.lvl3_module_depends_on.clone());
        let lvl2 = match lvl2 {
            Ok(d) => d,
            Err(e) => {
                return Err(e);
            },
        };
        match self.verify_outputs_and_set_defaults(conf, lvl2.as_str()) {
            Ok(()) => {},
            Err(e) => {
                return Err(e);
            },
        }
        self.take_declared_outputs(&module.outputs, &mut module.resolved_outputs);
        Ok(())
    }

    /// Moves the declared outputs into the resolved outputs (see `resolved_with`).
    pub fn take_declared_outputs(&mut self, outputs: &Vec<OutputType>, resolved: &mut StrMap)
        requires
            old(self).wf(),
            old(resolved).wf(),
            !has_const(outputs_view(outputs@)),
        ensures
            final(self).wf(),
            final(self).same_names(old(self)),
            final(resolved).wf(),
            (final(self).outputs(), final(resolved)@) == resolved_with(
                old(self).outputs(),
                old(resolved)@,
                outputs_view(outputs@),
            ),
    {
        let ghost ov = outputs_view(outputs@);
        let ghost total = resolved_with(self.outputs(), resolved@, ov);
        let n = outputs.len();
        let mut i: usize = 0;
        assert(ov.subrange(0, n as int) =~= ov);
        while i < n
            invariant
                n == outputs@.len(),
                ov == outputs_view(outputs@),
                !has_const(ov),
                i <= n,
                self.wf(),
                self.same_names(old(self)),
                resolved.wf(),
                resolved_with(self.outputs(), resolved@, ov.subrange(i as int, n as int)) == total,
                total == resolved_with(old(self).outputs(), old(resolved)@, ov),
            decreases n - i,
        {
            let ghost rest = ov.subrange(i as int, n as int);
            assert(rest[0] == ov[i as int]);
            assert(rest.subrange(1, rest.len() as int) =~= ov.subrange(i + 1, n as int));
            match &outputs[i] {
                OutputType::AllFromModule(other) => {
                    let ghost o0 = self.outputs();
                    let ghost r0 = resolved@;
                    assert(ov[i as int] == OutputV::All(other@));
                    assert(resolved_with(o0, r0, rest) == (
                        o0.remove(other@),
                        r0.union_prefer_right(inner_or_empty(o0, other@)),
                    ));
                    self.drain_outputs_into(other.as_str(), resolved);
                    return ;
                },
                OutputType::SpecificFromModule(other, key) => {
                    match self.remove_specific_output(other.as_str(), key.as_str()) {
                        Some(val) => {
                            resolved.insert(key.clone(), val);
                        },
                        None => {},
                    }
                },
                OutputType::SpecificConst(_, _) => {
                    assert(ov[i as int] is Const);
                    assert(false);
                },
            }
            i = i + 1;
        }
        assert(ov.subrange(n as int, n as int) =~= Seq::<OutputV>::empty());
    }
}

// ---------------------------------------------------------------- diagnostics

/// The module that makes the compiler report `err` as an error.
pub open spec fn error_module_text(err: Seq<char>) -> Seq<char> {
    "mod _hira_generated_error { fn _err() { compile_error!(r#\""@ + err + "\"#); } }"@
}

/// The module that makes the compiler report `warn`, on a line of its own, as a warning.
pub open spec fn warning_module_text(warn: Seq<char>) -> Seq<char> {
    "mod _hira_generated_warning { #[deprecated(note = r#\"\n"@ + warn
        + "\"#)]pub fn hira_generated_warning() {}\n fn _hira_use_warning() { hira_generated_warning() } }"@
}

/// The code that reports a pending error and a pending warning: the error module when there
/// is an error, then the warning module when there is a warning (one line apart).
pub open spec fn diagnostics_text(err: Seq<char>, warn: Seq<char>) -> Seq<char> {
    (if err.len() > 0 { error_module_text(err) } else { Seq::empty() }) + (if err.len() > 0
        && warn.len() > 0 {
        "\n"@
    } else {
        Seq::empty()
    }) + (if warn.len() > 0 { warning_module_text(warn) } else { Seq::empty() })
}

fn error_module(err: &str) -> (r: String)
    ensures
        r@ == error_module_text(err@),
{
    concat3("mod _hira_generated_error { fn _err() { compile_error!(r#\"", err, "\"#); } }")
}

fn warning_module(warn: &str) -> (r: String)
    ensures
        r@ == warning_module_text(warn@),
{
    concat3(
        "mod _hira_generated_warning { #[deprecated(note = r#\"\n",
        warn,
        "\"#)]pub fn hira_generated_warning() {}\n fn _hira_use_warning() { hira_generated_warning() } }",
    )
}

/// The code that reports a pending error and a pending warning (see `diagnostics_text`).
pub fn generated_diagnostics(error: &str, warning: &str) -> (r: String)
    ensures
        r@ == diagnostics_text(error@, warning@),
{
    let mut out = String::new();
    let has_err = error.unicode_len() > 0;
    let has_warn = warning.unicode_len() > 0;
    if has_err {
        let e = error_module(error);
        out.append(e.as_str());
    }
    if has_err && has_warn {
        out.append("\n");
    }
    if has_warn {
        let w = warning_module(warning);
        out.append(w.as_str());
    }
    proof {
        reveal_strlit("\n");
        assert(out@ =~= diagnostics_text(error@, warning@));
    }
    out
}

/// The refusal of a generated error module that does not lex.
pub open spec fn error_refusal_text(e: Seq<char>) -> Seq<char> {
    "Failed to generate compiler error "@ + e
}

/// The refusal of a generated warning module that does not lex.
pub open spec fn warning_refusal_text(e: Seq<char>) -> Seq<char> {
    "Failed to generate compiler warning "@ + e
}

impl L0Core {
    /// Finishes the level-3 module: the pending error and warning are appended to `stream`
    /// as code that makes the compiler report them (see `diagnostics_text`), when that code
    /// lexes; the warning is kept with a line break in front; then the module's outputs are resolved (see
    /// `resolve_outputs`).
    pub fn apply_changes(&mut self, conf: &HiraConfig, module: &mut HiraModule2, stream: &str) -> (r: Result<
        String,
        String,
    >)
        requires
            old(self).wf(),
            old(module).resolved_outputs.wf(),
            !has_const(outputs_view(old(module).outputs@)),
        ensures
            final(self).wf(),
            final(module).resolved_outputs.wf(),
            final(self).compiler_error_message@ == old(self).compiler_error_message@,
            final(module).name@ == old(module).name@,
            final(module).outputs@ == old(module).outputs@,
            r matches Ok(text) ==> text@ == (if old(self).compiler_error_message@.len() == 0
                && old(self).compiler_warning_message@.len() == 0 {
                stream@
            } else {
                stream@ + " "@ + diagnostics_text(
                    old(self).compiler_error_message@,
                    old(self).compiler_warning_message@,
                )
            }),
            r is Ok ==> final(self).compiler_warning_message@ == (if old(self).compiler_warning_message@.len() == 0 {
                old(self).compiler_warning_message@
            } else {
                "\n"@ + old(self).compiler_warning_message@
            }),
            r is Ok ==> (old(module).lvl3_module_depends_on matches Some(d) && (
                final(self).outputs(),
                final(module).resolved_outputs@,
            ) == resolved_with(
                defaults_for(conf.modules2@, old(self).outputs(), d@, conf.modules2@.len()),
                old(module).resolved_outputs@,
                outputs_view(old(module).outputs@),
            )),
            r matches Err(e) ==> {
                ||| exists|x: Seq<char>| e@ == #[trigger] error_refusal_text(x)
                ||| exists|x: Seq<char>| e@ == #[trigger] warning_refusal_text(x)
                ||| old(module).lvl3_module_depends_on is None
                ||| outputs_refusal(conf.modules2@, raw_outputs(final(self).module_outputs@)) == Some(e@)
            },
    {
        let has_err = self.compiler_error_message.unicode_len() > 0;
        let has_warn = self.compiler_warning_message.unicode_len() > 0;
        if has_err {
            let add = error_module(self.compiler_error_message.as_str());
            match lex_tokens(add.as_str()) {
                Ok(_) => {},
                Err(e) => {
                    let m = concat3("Failed to generate compiler error ", e.as_str(), "");
                    proof {
                        reveal_strlit("");
                        assert(m@ =~= error_refusal_text(e@));
                    }
                    return Err(m);
                },
            }
        }
        let warning = self.compiler_warning_message.clone();
        if has_warn {
            let warn = concat3("\n", warning.as_str(), "");
            proof {
                reveal_strlit("");
                reveal_strlit("\n");
            }
            self.compiler_warning_message = warn;
            let add = warning_module(warning.as_str());
            match lex_tokens(add.as_str()) {
                Ok(_) => {},
                Err(e) => {
                    let m = concat3("Failed to generate compiler warning ", e.as_str(), "");
                    proof {
                        assert(m@ =~= warning_refusal_text(e@));
                    }
                    return Err(m);
                },
            }
        }
        let out = if has_err || has_warn {
            let d = generated_diagnostics(self.compiler_error_message.as_str(), warning.as_str());
            concat3(stream, " ", d.as_str())
        } else {
            to_string(stream)
        };
        match self.resolve_outputs(conf, module) {
            Ok(()) => Ok(out),
            Err(e) => Err(e),
        }
    }
}

} // verus!
