use vstd::prelude::*;

use crate::text::str_eq;

verus! {

// ---------------------------------------------------------------- association lists

/// Whether no key occurs twice in an association list.
pub open spec fn keys_unique<V>(s: Seq<(Seq<char>, V)>) -> bool {
    forall|i: int, j: int| 0 <= i < s.len() && 0 <= j < s.len() && i != j ==> s[i].0 != s[j].0
}

/// The map that an association list stands for.
pub open spec fn pairs_map<V>(s: Seq<(Seq<char>, V)>) -> Map<Seq<char>, V>
    decreases s.len(),
{
    if s.len() == 0 {
        Map::empty()
    } else {
        pairs_map(s.drop_last()).insert(s.last().0, s.last().1)
    }
}

/// The keys of a map are exactly the keys of its list.
pub proof fn lemma_pairs_map_dom<V>(s: Seq<(Seq<char>, V)>, k: Seq<char>)
    ensures
        pairs_map(s).dom().contains(k) <==> exists|i: int| 0 <= i < s.len() && s[i].0 == k,
    decreases s.len(),
{
    if s.len() > 0 {
        let t = s.drop_last();
        lemma_pairs_map_dom(t, k);
        if pairs_map(s).dom().contains(k) && k != s.last().0 {
            let i = choose|i: int| 0 <= i < t.len() && t[i].0 == k;
            assert(s[i] == t[i]);
        }
        if exists|i: int| 0 <= i < s.len() && s[i].0 == k {
            let i = choose|i: int| 0 <= i < s.len() && s[i].0 == k;
            if i < s.len() - 1 {
                assert(t[i] == s[i]);
            }
        }
    }
}

/// In a list with unique keys, each key maps to the value at its place.
pub proof fn lemma_pairs_map_index<V>(s: Seq<(Seq<char>, V)>, i: int)
    requires
        keys_unique(s),
        0 <= i < s.len(),
    ensures
        pairs_map(s).dom().contains(s[i].0),
        pairs_map(s)[s[i].0] == s[i].1,
    decreases s.len(),
{
    let t = s.drop_last();
    if i < s.len() - 1 {
        assert(t[i] == s[i]);
        assert(keys_unique(t)) by {
            assert forall|a: int, b: int|
                0 <= a < t.len() && 0 <= b < t.len() && a != b implies t[a].0 != t[b].0 by {
                assert(t[a] == s[a] && t[b] == s[b]);
            }
        }
        lemma_pairs_map_index(t, i);
        assert(s[i].0 != s.last().0);
    }
}

/// Replacing the value at the place of a key is inserting into the map.
pub proof fn lemma_pairs_map_update<V>(s: Seq<(Seq<char>, V)>, i: int, v: V)
    requires
        keys_unique(s),
        0 <= i < s.len(),
    ensures
        keys_unique(s.update(i, (s[i].0, v))),
        pairs_map(s.update(i, (s[i].0, v))) == pairs_map(s).insert(s[i].0, v),
{
    let k = s[i].0;
    let u = s.update(i, (k, v));
    assert(keys_unique(u)) by {
        assert forall|a: int, b: int|
            0 <= a < u.len() && 0 <= b < u.len() && a != b implies u[a].0 != u[b].0 by {
            assert(u[a].0 == s[a].0 && u[b].0 == s[b].0);
        }
    }
    assert forall|x: Seq<char>| #[trigger]
        pairs_map(u).dom().contains(x) == pairs_map(s).insert(k, v).dom().contains(x) by {
        lemma_pairs_map_dom(u, x);
        lemma_pairs_map_dom(s, x);
        if exists|j: int| 0 <= j < s.len() && s[j].0 == x {
            let j = choose|j: int| 0 <= j < s.len() && s[j].0 == x;
            assert(u[j].0 == x);
        }
        if exists|j: int| 0 <= j < u.len() && u[j].0 == x {
            let j = choose|j: int| 0 <= j < u.len() && u[j].0 == x;
            assert(s[j].0 == x);
        }
    }
    assert forall|x: Seq<char>| #[trigger] pairs_map(u).dom().contains(x) implies pairs_map(u)[x]
        == pairs_map(s).insert(k, v)[x] by {
        lemma_pairs_map_dom(u, x);
        let j = choose|j: int| 0 <= j < u.len() && u[j].0 == x;
        lemma_pairs_map_index(u, j);
        if j != i {
            lemma_pairs_map_index(s, j);
        }
    }
    assert(pairs_map(u) =~= pairs_map(s).insert(k, v));
}

/// Appending a new key is inserting it into the map.
pub proof fn lemma_pairs_map_push<V>(s: Seq<(Seq<char>, V)>, k: Seq<char>, v: V)
    requires
        keys_unique(s),
        forall|j: int| 0 <= j < s.len() ==> s[j].0 != k,
    ensures
        keys_unique(s.push((k, v))),
        pairs_map(s.push((k, v))) == pairs_map(s).insert(k, v),
{
    let u = s.push((k, v));
    assert(u.drop_last() =~= s);
    assert(keys_unique(u)) by {
        assert forall|a: int, b: int|
            0 <= a < u.len() && 0 <= b < u.len() && a != b implies u[a].0 != u[b].0 by {
            if a < s.len() {
                assert(u[a] == s[a]);
            }
            if b < s.len() {
                assert(u[b] == s[b]);
            }
        }
    }
}

/// Taking out the place of a key is removing the key from the map.
pub proof fn lemma_pairs_map_remove<V>(s: Seq<(Seq<char>, V)>, i: int)
    requires
        keys_unique(s),
        0 <= i < s.len(),
    ensures
        keys_unique(s.remove(i)),
        pairs_map(s.remove(i)) == pairs_map(s).remove(s[i].0),
{
    let k = s[i].0;
    let u = s.remove(i);
    assert forall|a: int| 0 <= a < u.len() implies #[trigger] u[a] == (if a < i {
        s[a]
    } else {
        s[a + 1]
    }) by {}
    assert(keys_unique(u)) by {
        assert forall|a: int, b: int|
            0 <= a < u.len() && 0 <= b < u.len() && a != b implies u[a].0 != u[b].0 by {
            let a1 = if a < i { a } else { a + 1 };
            let b1 = if b < i { b } else { b + 1 };
            assert(u[a] == s[a1] && u[b] == s[b1]);
        }
    }
    assert forall|x: Seq<char>| #[trigger]
        pairs_map(u).dom().contains(x) == pairs_map(s).remove(k).dom().contains(x) by {
        lemma_pairs_map_dom(u, x);
        lemma_pairs_map_dom(s, x);
        if exists|j: int| 0 <= j < s.len() && s[j].0 == x && x != k {
            let j = choose|j: int| 0 <= j < s.len() && s[j].0 == x && x != k;
            let j1 = if j < i { j } else { j - 1 };
            assert(u[j1] == s[j]);
        }
        if exists|j: int| 0 <= j < u.len() && u[j].0 == x {
            let j = choose|j: int| 0 <= j < u.len() && u[j].0 == x;
            let j1 = if j < i { j } else { j + 1 };
            assert(u[j] == s[j1]);
        }
    }
    assert forall|x: Seq<char>| #[trigger] pairs_map(u).dom().contains(x) implies pairs_map(u)[x]
        == pairs_map(s).remove(k)[x] by {
        lemma_pairs_map_dom(u, x);
        let j = choose|j: int| 0 <= j < u.len() && u[j].0 == x;
        let j1 = if j < i { j } else { j + 1 };
        assert(u[j] == s[j1]);
        lemma_pairs_map_index(u, j);
        lemma_pairs_map_index(s, j1);
    }
    assert(pairs_map(u) =~= pairs_map(s).remove(k));
}

// ---------------------------------------------------------------- a map of strings

/// A map from strings to strings, kept as a list of pairs with distinct keys.
#[derive(Debug)]
pub struct StrMap {
    pub entries: Vec<(String, String)>,
}

pub open spec fn str_pairs(v: Seq<(String, String)>) -> Seq<(Seq<char>, Seq<char>)> {
    Seq::new(v.len(), |i: int| (v[i].0@, v[i].1@))
}

impl View for StrMap {
    type V = Map<Seq<char>, Seq<char>>;

    open spec fn view(&self) -> Map<Seq<char>, Seq<char>> {
        pairs_map(str_pairs(self.entries@))
    }
}

impl StrMap {
    pub open spec fn wf(&self) -> bool {
        keys_unique(str_pairs(self.entries@))
    }

    /// An empty map.
    pub fn new() -> (m: StrMap)
        ensures
            m.wf(),
            m@ == Map::<Seq<char>, Seq<char>>::empty(),
    {
        let m = StrMap { entries: Vec::new() };
        assert(str_pairs(m.entries@) =~= Seq::<(Seq<char>, Seq<char>)>::empty());
        m
    }

    /// The place of `key`, or the length when it is absent.
    fn find(&self, key: &str) -> (i: usize)
        ensures
            i <= self.entries@.len(),
            i < self.entries@.len() ==> self.entries@[i as int].0@ == key@,
            i == self.entries@.len() ==> forall|j: int|
                0 <= j < self.entries@.len() ==> self.entries@[j].0@ != key@,
    {
        let n = self.entries.len();
        let mut i: usize = 0;
        while i < n
            invariant
                n == self.entries@.len(),
                i <= n,
                forall|j: int| 0 <= j < i ==> self.entries@[j].0@ != key@,
            decreases n - i,
        {
            if str_eq(self.entries[i].0.as_str(), key) {
                return i;
            }
            i = i + 1;
        }
        i
    }

    /// The value bound to `key`, if any.
    pub fn get(&self, key: &str) -> (r: Option<String>)
        requires
            self.wf(),
        ensures
            r matches Some(v) ==> self@.dom().contains(key@) && v@ == self@[key@],
            r is None ==> !self@.dom().contains(key@),
    {
        let i = self.find(key);
        let ghost p = str_pairs(self.entries@);
        proof {
            lemma_pairs_map_dom(p, key@);
        }
        if i < self.entries.len() {
            proof {
                lemma_pairs_map_index(p, i as int);
            }
            Some(self.entries[i].1.clone())
        } else {
            assert(forall|j: int| 0 <= j < p.len() ==> p[j].0 != key@);
            None
        }
    }

    /// Whether `key` is bound.
    pub fn contains_key(&self, key: &str) -> (r: bool)
        ensures
            r == self@.dom().contains(key@),
    {
        let i = self.find(key);
        let ghost p = str_pairs(self.entries@);
        proof {
            lemma_pairs_map_dom(p, key@);
            if i < self.entries.len() {
                assert(p[i as int].0 == key@);
            }
        }
        i < self.entries.len()
    }

    /// Binds `key` to `val`, replacing an earlier binding.
    pub fn insert(&mut self, key: String, val: String)
        requires
            old(self).wf(),
        ensures
            final(self).wf(),
            final(self)@ == old(self)@.insert(key@, val@),
    {
        let i = self.find(key.as_str());
        let ghost p = str_pairs(self.entries@);
        let ghost kv = (key@, val@);
        if i < self.entries.len() {
            self.entries.set(i, (key, val));
            proof {
                lemma_pairs_map_update(p, i as int, kv.1);
                assert(str_pairs(self.entries@) =~= p.update(i as int, kv));
            }
        } else {
            self.entries.push((key, val));
            proof {
                lemma_pairs_map_push(p, kv.0, kv.1);
                assert(str_pairs(self.entries@) =~= p.push(kv));
            }
        }
    }

    /// Takes the binding of `key` out, giving back its value.
    pub fn remove(&mut self, key: &str) -> (r: Option<String>)
        requires
            old(self).wf(),
        ensures
            final(self).wf(),
            final(self)@ == old(self)@.remove(key@),
            r matches Some(v) ==> old(self)@.dom().contains(key@) && v@ == old(self)@[key@],
            r is None ==> !old(self)@.dom().contains(key@),
    {
        let i = self.find(key);
        let ghost p = str_pairs(self.entries@);
        proof {
            lemma_pairs_map_dom(p, key@);
        }
        if i < self.entries.len() {
            proof {
                lemma_pairs_map_index(p, i as int);
                lemma_pairs_map_remove(p, i as int);
            }
            let (_, v) = self.entries.remove(i);
            assert(str_pairs(self.entries@) =~= p.remove(i as int));
            Some(v)
        } else {
            assert(forall|j: int| 0 <= j < p.len() ==> p[j].0 != key@);
            assert(pairs_map(p).remove(key@) =~= pairs_map(p));
            None
        }
    }
}

} // verus!
