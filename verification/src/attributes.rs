use vstd::prelude::*;
use vstd::string::*;

use crate::text::{str_eq, strip_one_quote_pair, strip_quote_pair};
use crate::tokens::{Delim, Tok};

verus! {

/// The value of a macro attribute: a string, a list of values, or a map from keys to values.
/// A map holds each key once, in the order in which the keys first appeared.
#[derive(Debug)]
pub enum AttributeValue {
    Str(String),
    List(Vec<AttributeValue>),
    Table(Vec<(String, AttributeValue)>),
}

/// The mathematical form of an attribute value.
pub enum AttrV {
    Str(Seq<char>),
    List(Seq<AttrV>),
    Table(Seq<(Seq<char>, AttrV)>),
}

/// Why an attribute token could not be read as a value.
#[derive(Debug)]
pub enum AttrError {
    /// A map entry or a list item was followed by something other than `,`.
    ExpectedComma,
    /// A map entry did not start with an identifier or a literal.
    ExpectedKey,
    /// A map key was the last token of its group.
    MissingColon,
    /// A map key was followed by something other than `:`.
    ExpectedColon,
    /// A group that is neither `{ .. }` nor `[ .. ]`.
    InvalidDelimiter,
    /// An identifier that names no loaded constant.
    UnknownConst(String),
    /// A punctuation mark where a value was expected.
    UnexpectedPunct,
}

/// The mathematical form of an attribute error.
pub enum AttrFail {
    ExpectedComma,
    ExpectedKey,
    MissingColon,
    ExpectedColon,
    InvalidDelimiter,
    UnknownConst(Seq<char>),
    UnexpectedPunct,
}

pub open spec fn attr_error_view(e: AttrError) -> AttrFail {
    match e {
        AttrError::ExpectedComma => AttrFail::ExpectedComma,
        AttrError::ExpectedKey => AttrFail::ExpectedKey,
        AttrError::MissingColon => AttrFail::MissingColon,
        AttrError::ExpectedColon => AttrFail::ExpectedColon,
        AttrError::InvalidDelimiter => AttrFail::InvalidDelimiter,
        AttrError::UnknownConst(s) => AttrFail::UnknownConst(s@),
        AttrError::UnexpectedPunct => AttrFail::UnexpectedPunct,
    }
}

pub open spec fn attr_view(a: AttributeValue) -> AttrV
    decreases a,
{
    match a {
        AttributeValue::Str(s) => AttrV::Str(s@),
        AttributeValue::List(l) => AttrV::List(attrs_view(l@)),
        AttributeValue::Table(m) => AttrV::Table(entries_view(m@)),
    }
}

pub open spec fn attrs_view(s: Seq<AttributeValue>) -> Seq<AttrV>
    decreases s,
{
    if s.len() == 0 {
        Seq::empty()
    } else {
        seq![attr_view(s[0])] + attrs_view(s.subrange(1, s.len() as int))
    }
}

pub open spec fn entries_view(s: Seq<(String, AttributeValue)>) -> Seq<(Seq<char>, AttrV)>
    decreases s,
{
    if s.len() == 0 {
        Seq::empty()
    } else {
        seq![(s[0].0@, attr_view(s[0].1))] + entries_view(s.subrange(1, s.len() as int))
    }
}

pub open spec fn attr_result_view(r: Result<AttributeValue, AttrError>) -> Result<AttrV, AttrFail> {
    match r {
        Ok(a) => Ok(attr_view(a)),
        Err(e) => Err(attr_error_view(e)),
    }
}

/// The map `m` with `k` bound to `v`: an existing binding of `k` is replaced in place,
/// otherwise the binding is added at the end.
pub open spec fn assoc_put<V>(m: Seq<(Seq<char>, V)>, k: Seq<char>, v: V) -> Seq<(Seq<char>, V)>
    decreases m.len(),
{
    if m.len() == 0 {
        seq![(k, v)]
    } else if m[0].0 == k {
        m.update(0, (k, v))
    } else {
        seq![m[0]] + assoc_put(m.subrange(1, m.len() as int), k, v)
    }
}

/// The value that `m` binds to `k`: the first binding of `k`.
pub open spec fn assoc_get<V>(m: Seq<(Seq<char>, V)>, k: Seq<char>) -> Option<V>
    decreases m.len(),
{
    if m.len() == 0 {
        None
    } else if m[0].0 == k {
        Some(m[0].1)
    } else {
        assoc_get(m.subrange(1, m.len() as int), k)
    }
}

/// Whether no key is bound twice.
pub open spec fn keys_distinct<V>(m: Seq<(Seq<char>, V)>) -> bool {
    forall|i: int, j: int| 0 <= i < j < m.len() ==> m[i].0 != m[j].0
}

/// The key that a token gives as a map key: an identifier's text, or a literal's text
/// without a surrounding pair of double quotes.
pub open spec fn key_of(t: Tok) -> Option<Seq<char>> {
    match t {
        Tok::Ident(a) => Some(a@),
        Tok::Literal(a) => Some(strip_one_quote_pair(a@)),
        _ => None,
    }
}

/// The value of one attribute token, with identifiers looked up in `consts`.
pub open spec fn parse_attr(t: Tok, consts: Seq<(String, String)>) -> Result<AttrV, AttrFail>
    decreases t,
{
    match t {
        Tok::Group(d, children, _) => {
            if d == Delim::Brace {
                match parse_entries(children@, consts, Seq::empty()) {
                    Ok(m) => Ok(AttrV::Table(m)),
                    Err(e) => Err(e),
                }
            } else if d == Delim::Bracket {
                match parse_items(children@, consts, Seq::empty()) {
                    Ok(l) => Ok(AttrV::List(l)),
                    Err(e) => Err(e),
                }
            } else {
                Err(AttrFail::InvalidDelimiter)
            }
        },
        Tok::Ident(a) => match const_lookup(consts, a@) {
            Some(v) => Ok(AttrV::Str(v)),
            None => Err(AttrFail::UnknownConst(a@)),
        },
        Tok::Literal(a) => Ok(AttrV::Str(strip_one_quote_pair(a@))),
        Tok::Punct(_, _) => Err(AttrFail::UnexpectedPunct),
    }
}

/// The entries `key: value, ...` of a map group, added to `acc` in order.
/// A key with `:` but no value after it is dropped; a trailing `,` is allowed.
pub open spec fn parse_entries(
    s: Seq<Tok>,
    consts: Seq<(String, String)>,
    acc: Seq<(Seq<char>, AttrV)>,
) -> Result<Seq<(Seq<char>, AttrV)>, AttrFail>
    decreases s,
{
    if s.len() == 0 {
        Ok(acc)
    } else {
        match key_of(s[0]) {
            None => Err(AttrFail::ExpectedKey),
            Some(k) => {
                if s.len() < 2 {
                    Err(AttrFail::MissingColon)
                } else if !(s[1] matches Tok::Punct(c, _) && c == ':') {
                    Err(AttrFail::ExpectedColon)
                } else if s.len() == 2 {
                    Ok(acc)
                } else {
                    match parse_attr(s[2], consts) {
                        Err(e) => Err(e),
                        Ok(v) => {
                            if s.len() == 3 {
                                Ok(assoc_put(acc, k, v))
                            } else if !(s[3] matches Tok::Punct(c, _) && c == ',') {
                                Err(AttrFail::ExpectedComma)
                            } else {
                                parse_entries(
                                    s.subrange(4, s.len() as int),
                                    consts,
                                    assoc_put(acc, k, v),
                                )
                            }
                        },
                    }
                }
            },
        }
    }
}

/// The items `value, ...` of a list group, appended to `acc`; a trailing `,` is allowed.
pub open spec fn parse_items(s: Seq<Tok>, consts: Seq<(String, String)>, acc: Seq<AttrV>) -> Result<
    Seq<AttrV>,
    AttrFail,
>
    decreases s,
{
    if s.len() == 0 {
        Ok(acc)
    } else {
        match parse_attr(s[0], consts) {
            Err(e) => Err(e),
            Ok(v) => {
                if s.len() == 1 {
                    Ok(acc.push(v))
                } else if !(s[1] matches Tok::Punct(c, _) && c == ',') {
                    Err(AttrFail::ExpectedComma)
                } else {
                    parse_items(s.subrange(2, s.len() as int), consts, acc.push(v))
                }
            },
        }
    }
}

/// The value bound to a name in a table of constants: the first binding of the name.
pub open spec fn const_lookup(consts: Seq<(String, String)>, k: Seq<char>) -> Option<Seq<char>>
    decreases consts.len(),
{
    if consts.len() == 0 {
        None
    } else if consts[0].0@ == k {
        Some(consts[0].1@)
    } else {
        const_lookup(consts.subrange(1, consts.len() as int), k)
    }
}

/// Named string constants, loaded before attributes are read; each name is bound once.
pub struct ConstTable {
    pub entries: Vec<(String, String)>,
}

impl ConstTable {
    pub open spec fn wf(&self) -> bool {
        forall|i: int, j: int|
            0 <= i < j < self.entries@.len() ==> self.entries@[i].0@ != self.entries@[j].0@
    }

    pub open spec fn lookup(&self, k: Seq<char>) -> Option<Seq<char>> {
        const_lookup(self.entries@, k)
    }

    /// An empty table.
    pub fn new() -> (t: ConstTable)
        ensures
            t.wf(),
            forall|k: Seq<char>| t.lookup(k) is None,
    {
        ConstTable { entries: Vec::new() }
    }

    /// The value bound to `key`, if any.
    pub fn get_const(&self, key: &str) -> (r: Option<String>)
        ensures
            match self.lookup(key@) {
                Some(v) => r matches Some(s) && s@ == v,
                None => r is None,
            },
    {
        let mut i: usize = 0;
        let n = self.entries.len();
        assert(self.entries@.subrange(0, n as int) =~= self.entries@);
        while i < n
            invariant
                n == self.entries@.len(),
                0 <= i <= n,
                const_lookup(self.entries@, key@) == const_lookup(
                    self.entries@.subrange(i as int, n as int),
                    key@,
                ),
            decreases n - i,
        {
            let ghost rest = self.entries@.subrange(i as int, n as int);
            assert(rest.subrange(1, rest.len() as int) =~= self.entries@.subrange(
                i + 1,
                n as int,
            ));
            if str_eq(self.entries[i].0.as_str(), key) {
                return Some(self.entries[i].1.clone());
            }
            i = i + 1;
        }
        None
    }

    /// Binds `key` to `val`, replacing an earlier binding of `key`.
    pub fn set_const(&mut self, key: &str, val: &str)
        requires
            old(self).wf(),
        ensures
            final(self).wf(),
            final(self).lookup(key@) == Some(val@),
            forall|k: Seq<char>| k != key@ ==> final(self).lookup(k) == old(self).lookup(k),
    {
        let n = self.entries.len();
        let mut i: usize = 0;
        let mut found = false;
        while i < n && !found
            invariant
                n == self.entries@.len(),
                0 <= i <= n,
                forall|j: int| 0 <= j < i ==> self.entries@[j].0@ != key@,
                found ==> i < n && self.entries@[i as int].0@ == key@,
            decreases n - i + (if found { 0int } else { 1int }),
        {
            if str_eq(self.entries[i].0.as_str(), key) {
                found = true;
            } else {
                i = i + 1;
            }
        }
        proof {
            lemma_const_lookup_prefix(self.entries@, key@, i as int);
        }
        if i < n {
            let ghost old_entries = self.entries@;
            self.entries.set(i, (String::from_str(key), String::from_str(val)));
            proof {
                lemma_const_lookup_update(old_entries, i as int, self.entries@[i as int]);
            }
        } else {
            let ghost old_entries = self.entries@;
            self.entries.push((String::from_str(key), String::from_str(val)));
            proof {
                lemma_const_lookup_push(old_entries, self.entries@[n as int]);
            }
        }
    }
}

proof fn lemma_const_lookup_prefix(m: Seq<(String, String)>, k: Seq<char>, i: int)
    requires
        0 <= i <= m.len(),
        forall|j: int| 0 <= j < i ==> m[j].0@ != k,
        i < m.len() ==> m[i].0@ == k,
    ensures
        i < m.len() ==> const_lookup(m, k) == Some(m[i].1@),
        i == m.len() ==> const_lookup(m, k) is None,
    decreases i,
{
    if i > 0 {
        let rest = m.subrange(1, m.len() as int);
        lemma_const_lookup_prefix(rest, k, i - 1);
    }
}

proof fn lemma_const_lookup_update(m: Seq<(String, String)>, i: int, e: (String, String))
    requires
        0 <= i < m.len(),
        m[i].0@ == e.0@,
        forall|a: int, b: int| 0 <= a < b < m.len() ==> m[a].0@ != m[b].0@,
    ensures
        forall|k: Seq<char>| k != e.0@ ==> const_lookup(m.update(i, e), k) == const_lookup(m, k),
        const_lookup(m.update(i, e), e.0@) == Some(e.1@),
        forall|a: int, b: int|
            0 <= a < b < m.len() ==> m.update(i, e)[a].0@ != m.update(i, e)[b].0@,
    decreases m.len(),
{
    reveal_with_fuel(const_lookup, 2);
    let n = m.update(i, e);
    if i == 0 {
        assert(n.subrange(1, n.len() as int) =~= m.subrange(1, m.len() as int));
    }
    if i > 0 {
        let rest = m.subrange(1, m.len() as int);
        assert(n.subrange(1, n.len() as int) =~= rest.update(i - 1, e));
        lemma_const_lookup_update(rest, i - 1, e);
        assert(n[0] == m[0]);
        assert forall|k: Seq<char>| k != e.0@ implies const_lookup(n, k) == const_lookup(m, k) by {
            if m[0].0@ != k {
                assert(const_lookup(n, k) == const_lookup(rest.update(i - 1, e), k));
                assert(const_lookup(m, k) == const_lookup(rest, k));
            }
        }
    }
    assert forall|a: int, b: int| 0 <= a < b < m.len() implies n[a].0@ != n[b].0@ by {
        if a == i {
            assert(m[b].0@ != m[i].0@);
        } else if b == i {
            assert(m[a].0@ != m[i].0@);
        }
    }
}

proof fn lemma_const_lookup_push(m: Seq<(String, String)>, e: (String, String))
    requires
        const_lookup(m, e.0@) is None,
    ensures
        forall|k: Seq<char>| k != e.0@ ==> const_lookup(m.push(e), k) == const_lookup(m, k),
        const_lookup(m.push(e), e.0@) == Some(e.1@),
    decreases m.len(),
{
    reveal_with_fuel(const_lookup, 2);
    let n = m.push(e);
    if m.len() > 0 {
        let rest = m.subrange(1, m.len() as int);
        assert(n.subrange(1, n.len() as int) =~= rest.push(e));
        lemma_const_lookup_push(rest, e);
        assert(n[0] == m[0]);
        assert forall|k: Seq<char>| k != e.0@ implies const_lookup(n, k) == const_lookup(m, k) by {
            if m[0].0@ != k {
                assert(const_lookup(n, k) == const_lookup(rest.push(e), k));
                assert(const_lookup(m, k) == const_lookup(rest, k));
            }
        }
    } else {
        assert(n.subrange(1, n.len() as int) =~= Seq::<(String, String)>::empty());
    }
}


proof fn lemma_attrs_view_index(s: Seq<AttributeValue>)
    ensures
        attrs_view(s).len() == s.len(),
        forall|i: int| 0 <= i < s.len() ==> #[trigger] attrs_view(s)[i] == attr_view(s[i]),
    decreases s.len(),
{
    if s.len() > 0 {
        let rest = s.subrange(1, s.len() as int);
        lemma_attrs_view_index(rest);
        assert forall|i: int| 0 <= i < s.len() implies #[trigger] attrs_view(s)[i] == attr_view(
            s[i],
        ) by {
            if i > 0 {
                assert(rest[i - 1] == s[i]);
            }
        }
    }
}

proof fn lemma_entries_view_index(s: Seq<(String, AttributeValue)>)
    ensures
        entries_view(s).len() == s.len(),
        forall|i: int|
            0 <= i < s.len() ==> #[trigger] entries_view(s)[i] == (s[i].0@, attr_view(s[i].1)),
    decreases s.len(),
{
    if s.len() > 0 {
        let rest = s.subrange(1, s.len() as int);
        lemma_entries_view_index(rest);
        assert forall|i: int| 0 <= i < s.len() implies #[trigger] entries_view(s)[i] == (
            s[i].0@,
            attr_view(s[i].1),
        ) by {
            if i > 0 {
                assert(rest[i - 1] == s[i]);
            }
        }
    }
}

proof fn lemma_attrs_view_push(s: Seq<AttributeValue>, a: AttributeValue)
    ensures
        attrs_view(s.push(a)) == attrs_view(s).push(attr_view(a)),
{
    lemma_attrs_view_index(s);
    lemma_attrs_view_index(s.push(a));
    assert(attrs_view(s.push(a)) =~= attrs_view(s).push(attr_view(a)));
}

pub proof fn lemma_assoc_put_at<V>(m: Seq<(Seq<char>, V)>, k: Seq<char>, v: V, i: int)
    requires
        0 <= i <= m.len(),
        forall|j: int| 0 <= j < i ==> m[j].0 != k,
        i < m.len() ==> m[i].0 == k,
    ensures
        i < m.len() ==> assoc_put(m, k, v) == m.update(i, (k, v)),
        i == m.len() ==> assoc_put(m, k, v) == m.push((k, v)),
    decreases i,
{
    if i > 0 {
        let rest = m.subrange(1, m.len() as int);
        lemma_assoc_put_at(rest, k, v, i - 1);
        if i < m.len() {
            assert(seq![m[0]] + rest.update(i - 1, (k, v)) =~= m.update(i, (k, v)));
        } else {
            assert(seq![m[0]] + rest.push((k, v)) =~= m.push((k, v)));
        }
    } else if m.len() == 0 {
        assert(seq![(k, v)] =~= m.push((k, v)));
    }
}

/// Binds `k` to `v` in a map held as a list of pairs.
fn map_insert(m: &mut Vec<(String, AttributeValue)>, k: String, v: AttributeValue)
    ensures
        entries_view(final(m)@) == assoc_put(entries_view(old(m)@), k@, attr_view(v)),
{
    let n = m.len();
    let mut i: usize = 0;
    let mut found = false;
    while i < n && !found
        invariant
            n == m@.len(),
            0 <= i <= n,
            forall|j: int| 0 <= j < i ==> m@[j].0@ != k@,
            found ==> i < n && m@[i as int].0@ == k@,
        decreases n - i + (if found { 0int } else { 1int }),
    {
        if str_eq(m[i].0.as_str(), k.as_str()) {
            found = true;
        } else {
            i = i + 1;
        }
    }
    let ghost before = m@;
    proof {
        lemma_entries_view_index(before);
        lemma_assoc_put_at(entries_view(before), k@, attr_view(v), i as int);
    }
    let ghost entry = (k@, attr_view(v));
    if i < n {
        m.set(i, (k, v));
        proof {
            lemma_entries_view_index(m@);
            assert(entries_view(m@) =~= entries_view(before).update(i as int, entry));
        }
    } else {
        m.push((k, v));
        proof {
            lemma_entries_view_index(m@);
            assert(entries_view(m@) =~= entries_view(before).push(entry));
        }
    }
}

/// Reads one attribute token as a value, looking identifiers up in `consts`; an error
/// tells why the token is not a value.
pub fn try_get_attribute_value(t: &Tok, consts: &ConstTable) -> (r: Result<AttributeValue, AttrError>)
    ensures
        attr_result_view(r) == parse_attr(*t, consts.entries@),
    decreases t,
{
    match t {
        Tok::Group(d, children, _) => {
            let n = children.len();
            if *d == Delim::Brace {
                let mut out: Vec<(String, AttributeValue)> = Vec::new();
                let mut i: usize = 0;
                assert(children@.subrange(0, n as int) =~= children@);
                assert(entries_view(out@) =~= Seq::<(Seq<char>, AttrV)>::empty());
                while i < n
                    invariant
                        n == children@.len(),
                        0 <= i <= n,
                        *t matches Tok::Group(dd, cc, _) && cc == *children && dd == Delim::Brace,
                        parse_entries(children@, consts.entries@, Seq::empty()) == parse_entries(
                            children@.subrange(i as int, n as int),
                            consts.entries@,
                            entries_view(out@),
                        ),
                    decreases n - i,
                {
                    let ghost s = children@.subrange(i as int, n as int);
                    assert(s[0] == children@[i as int]);
                    let key = match &children[i] {
                        Tok::Ident(a) => a.clone(),
                        Tok::Literal(a) => strip_quote_pair(a.as_str()),
                        _ => {
                            return Err(AttrError::ExpectedKey);
                        },
                    };
                    if i + 1 >= n {
                        return Err(AttrError::MissingColon);
                    }
                    assert(s[1] == children@[i + 1]);
                    match &children[i + 1] {
                        Tok::Punct(c, _) => {
                            if *c != ':' {
                                return Err(AttrError::ExpectedColon);
                            }
                        },
                        _ => {
                            return Err(AttrError::ExpectedColon);
                        },
                    }
                    if i + 2 >= n {
                        return Ok(AttributeValue::Table(out));
                    }
                    assert(s[2] == children@[i + 2]);
                    let v = match try_get_attribute_value(&children[i + 2], consts) {
                        Ok(v) => v,
                        Err(e) => {
                            return Err(e);
                        },
                    };
                    map_insert(&mut out, key, v);
                    if i + 3 >= n {
                        return Ok(AttributeValue::Table(out));
                    }
                    assert(s[3] == children@[i + 3]);
                    match &children[i + 3] {
                        Tok::Punct(c, _) => {
                            if *c != ',' {
                                return Err(AttrError::ExpectedComma);
                            }
                        },
                        _ => {
                            return Err(AttrError::ExpectedComma);
                        },
                    }
                    assert(s.subrange(4, s.len() as int) =~= children@.subrange(
                        i + 4,
                        n as int,
                    ));
                    i = i + 4;
                }
                Ok(AttributeValue::Table(out))
            } else if *d == Delim::Bracket {
                let mut out: Vec<AttributeValue> = Vec::new();
                let mut i: usize = 0;
                assert(children@.subrange(0, n as int) =~= children@);
                assert(attrs_view(out@) =~= Seq::<AttrV>::empty());
                while i < n
                    invariant
                        n == children@.len(),
                        0 <= i <= n,
                        *t matches Tok::Group(dd, cc, _) && cc == *children && dd
                            == Delim::Bracket,
                        parse_items(children@, consts.entries@, Seq::empty()) == parse_items(
                            children@.subrange(i as int, n as int),
                            consts.entries@,
                            attrs_view(out@),
                        ),
                    decreases n - i,
                {
                    let ghost s = children@.subrange(i as int, n as int);
                    assert(s[0] == children@[i as int]);
                    let v = match try_get_attribute_value(&children[i], consts) {
                        Ok(v) => v,
                        Err(e) => {
                            return Err(e);
                        },
                    };
                    let ghost before = out@;
                    out.push(v);
                    proof {
                        lemma_attrs_view_push(before, v);
                    }
                    if i + 1 >= n {
                        return Ok(AttributeValue::List(out));
                    }
                    assert(s[1] == children@[i + 1]);
                    match &children[i + 1] {
                        Tok::Punct(c, _) => {
                            if *c != ',' {
                                return Err(AttrError::ExpectedComma);
                            }
                        },
                        _ => {
                            return Err(AttrError::ExpectedComma);
                        },
                    }
                    assert(s.subrange(2, s.len() as int) =~= children@.subrange(
                        i + 2,
                        n as int,
                    ));
                    i = i + 2;
                }
                Ok(AttributeValue::List(out))
            } else {
                Err(AttrError::InvalidDelimiter)
            }
        },
        Tok::Ident(a) => match consts.get_const(a.as_str()) {
            Some(v) => Ok(AttributeValue::Str(v)),
            None => Err(AttrError::UnknownConst(a.clone())),
        },
        Tok::Literal(a) => Ok(AttributeValue::Str(strip_quote_pair(a.as_str()))),
        Tok::Punct(_, _) => Err(AttrError::UnexpectedPunct),
    }
}


impl AttributeValue {
    /// The string of a string value.
    pub fn assert_str(self, key: &str) -> (r: String)
        requires
            self is Str,
        ensures
            AttrV::Str(r@) == attr_view(self),
    {
        match self {
            AttributeValue::Str(s) => s,
            _ => {
                proof {
                    assert(false);
                }
                String::new()
            },
        }
    }

    /// The entries of a map value.
    pub fn assert_map(self, key: &str) -> (r: Vec<(String, AttributeValue)>)
        requires
            self is Table,
        ensures
            AttrV::Table(entries_view(r@)) == attr_view(self),
    {
        match self {
            AttributeValue::Table(m) => m,
            _ => {
                proof {
                    assert(false);
                }
                Vec::new()
            },
        }
    }

    /// The items of a list value.
    pub fn assert_list(self, key: &str) -> (r: Vec<AttributeValue>)
        requires
            self is List,
        ensures
            AttrV::List(attrs_view(r@)) == attr_view(self),
    {
        match self {
            AttributeValue::List(l) => l,
            _ => {
                proof {
                    assert(false);
                }
                Vec::new()
            },
        }
    }
}

/// The value of an attribute token stream: an empty map for an empty stream, otherwise the
/// value of its first token.
pub open spec fn parse_attr_stream(s: Seq<Tok>, consts: Seq<(String, String)>) -> Result<
    AttrV,
    AttrFail,
> {
    if s.len() == 0 {
        Ok(AttrV::Table(Seq::empty()))
    } else {
        parse_attr(s[0], consts)
    }
}

/// Reads one attribute token as a value, on tokens that are a well-formed value.
pub fn get_attribute_value(token: Tok, consts: &ConstTable) -> (r: AttributeValue)
    requires
        parse_attr(token, consts.entries@) is Ok,
    ensures
        parse_attr(token, consts.entries@) == Ok::<AttrV, AttrFail>(attr_view(r)),
{
    match try_get_attribute_value(&token, consts) {
        Ok(v) => v,
        Err(_) => {
            proof {
                assert(false);
            }
            AttributeValue::Str(String::new())
        },
    }
}

/// Reads the value of an attribute token stream; an error tells why it is not a value.
pub fn try_parse_attributes(attr: &Vec<Tok>, consts: &ConstTable) -> (r: Result<
    AttributeValue,
    AttrError,
>)
    ensures
        attr_result_view(r) == parse_attr_stream(attr@, consts.entries@),
{
    if attr.len() == 0 {
        let out: Vec<(String, AttributeValue)> = Vec::new();
        assert(entries_view(out@) =~= Seq::<(Seq<char>, AttrV)>::empty());
        Ok(AttributeValue::Table(out))
    } else {
        try_get_attribute_value(&attr[0], consts)
    }
}

/// Reads the value of an attribute token stream, on streams that hold a well-formed value.
pub fn parse_attributes(attr: Vec<Tok>, consts: &ConstTable) -> (r: AttributeValue)
    requires
        parse_attr_stream(attr@, consts.entries@) is Ok,
    ensures
        parse_attr_stream(attr@, consts.entries@) == Ok::<AttrV, AttrFail>(attr_view(r)),
{
    match try_parse_attributes(&attr, consts) {
        Ok(v) => v,
        Err(_) => {
            proof {
                assert(false);
            }
            AttributeValue::Str(String::new())
        },
    }
}

} // verus!
