use vstd::prelude::*;
use vstd::string::*;

use crate::text::{contains_run, ends_with, seq_contains_run, seq_ends_with, str_eq, strings_view, to_string, trim_string, trim_ws};
use crate::level0::opt_view;
use crate::tokens::{Delim, Tok};
use crate::use_paths::{remove_surrounding_quotes, without_surrounding_quotes};

verus! {

/// The form of an attribute: a bare path, a path with a delimited token list, or a path
/// with `= value`.
#[derive(Debug)]
pub enum MetaKind {
    Path,
    /// the delimiter and the tokens inside it
    List(Delim, Vec<Tok>),
    /// the value as printed, and the text of its token when it is a string literal
    NameValue(String, Option<String>),
}

/// An attribute as the parsers read it: its path as printed, the names of the path's
/// segments, and its form.
#[derive(Debug)]
pub struct AttrItem {
    pub path: String,
    pub path_segments: Vec<String>,
    pub meta: MetaKind,
}

/// A configuration given to a module item by `#[hiracfg(key)]` or `#[hiracfg(key = "value")]`.
#[derive(Debug)]
pub struct Hiracfg {
    pub key: String,
    pub value: Option<String>,
    pub applied_to: String,
}

/// Whether the attribute's path, without surrounding quotes, ends with `s`.
pub open spec fn attr_ends_in_spec(a: AttrItem, s: Seq<char>) -> bool {
    seq_ends_with(without_surrounding_quotes(a.path@), s)
}

fn unquoted(s: &str) -> (r: String)
    ensures
        r@ == without_surrounding_quotes(s@),
{
    let mut t = to_string(s);
    remove_surrounding_quotes(&mut t);
    t
}

/// Whether the attribute's path ends with `searchstr`.
pub fn attr_ends_in(attr: &AttrItem, searchstr: &str) -> (r: bool)
    ensures
        r == attr_ends_in_spec(*attr, searchstr@),
{
    let p = unquoted(attr.path.as_str());
    ends_with(p.as_str(), searchstr)
}

/// Whether one of the attributes' paths ends with `searchstr`.
pub fn has_attr_that_ends_in(attributes: &Vec<AttrItem>, searchstr: &str) -> (r: bool)
    ensures
        r == exists|i: int| 0 <= i < attributes@.len() && attr_ends_in_spec(attributes@[i], searchstr@),
{
    let n = attributes.len();
    let mut i: usize = 0;
    while i < n
        invariant
            n == attributes@.len(),
            i <= n,
            forall|j: int| 0 <= j < i ==> !attr_ends_in_spec(attributes@[j], searchstr@),
        decreases n - i,
    {
        if attr_ends_in(&attributes[i], searchstr) {
            return true;
        }
        i = i + 1;
    }
    false
}

/// Whether the value of one of the `name = value` attributes (a doc comment is one)
/// holds `match_str`.
pub fn has_comment(attributes: &Vec<AttrItem>, match_str: &str) -> (r: bool)
    ensures
        r == exists|i: int|
            0 <= i < attributes@.len() && (#[trigger] attributes@[i].meta matches MetaKind::NameValue(v, _)
                && seq_contains_run(v@, match_str@)),
{
    let n = attributes.len();
    let mut i: usize = 0;
    while i < n
        invariant
            n == attributes@.len(),
            i <= n,
            forall|j: int|
                0 <= j < i ==> !(#[trigger] attributes@[j].meta matches MetaKind::NameValue(v, _)
                    && seq_contains_run(v@, match_str@)),
        decreases n - i,
    {
        if let MetaKind::NameValue(v, _) = &attributes[i].meta {
            if contains_run(v.as_str(), match_str) {
                return true;
            }
        }
        i = i + 1;
    }
    false
}

/// Whether the attribute is `#[derive(..)]` with parentheses and derives `name`.
pub open spec fn has_derive_spec(a: AttrItem, name: Seq<char>) -> bool {
    &&& a.meta matches MetaKind::List(d, toks) && d == Delim::Parenthesis
    &&& a.path_segments@.len() > 0
    &&& without_surrounding_quotes(a.path_segments@[0]@) == "derive"@
    &&& exists|i: int|
        0 <= i < a.meta->List_1@.len() && (#[trigger] a.meta->List_1@[i] matches Tok::Ident(x)
            && without_surrounding_quotes(x@) == name)
}

/// Whether the attribute derives `name` (see `has_derive_spec`).
#[verifier::loop_isolation(false)]
pub fn has_derive(meta: &AttrItem, name: &str) -> (r: bool)
    ensures
        r == has_derive_spec(*meta, name@),
{
    let toks = match &meta.meta {
        MetaKind::List(d, toks) => {
            if *d != Delim::Parenthesis {
                return false;
            }
            toks
        },
        _ => {
            return false;
        },
    };
    if meta.path_segments.len() == 0 {
        return false;
    }
    let first = unquoted(meta.path_segments[0].as_str());
    if !str_eq(first.as_str(), "derive") {
        return false;
    }
    let n = toks.len();
    let mut i: usize = 0;
    while i < n
        invariant
            n == toks@.len(),
            i <= n,
            forall|j: int|
                0 <= j < i ==> !(#[trigger] toks@[j] matches Tok::Ident(x) && without_surrounding_quotes(x@)
                    == name@),
        decreases n - i,
    {
        if let Tok::Ident(x) = &toks[i] {
            let id = unquoted(x.as_str());
            if str_eq(id.as_str(), name) {
                assert(meta.meta->List_1@ == toks@);
                assert(meta.meta->List_1@[i as int] matches Tok::Ident(y)
                    && without_surrounding_quotes(y@) == name@);
                return true;
            }
        }
        i = i + 1;
    }
    false
}

/// The documentation of an item: the string values of its `doc` attributes, unquoted and
/// joined, trimmed.
pub open spec fn documentation(attrs: Seq<AttrItem>) -> Seq<char> {
    trim_ws(doc_text(attrs))
}

/// Whether one of the names contains `doc`.
pub open spec fn any_doc_segment(segs: Seq<String>) -> bool {
    exists|i: int| 0 <= i < segs.len() && seq_contains_run(segs[i]@, "doc"@)
}

/// The string values of the `doc` attributes, unquoted and joined.
pub open spec fn doc_text(attrs: Seq<AttrItem>) -> Seq<char>
    decreases attrs.len(),
{
    if attrs.len() == 0 {
        Seq::empty()
    } else {
        let a = attrs.last();
        doc_text(attrs.drop_last()) + match a.meta {
            MetaKind::NameValue(_, Some(lit)) => if any_doc_segment(a.path_segments@) {
                without_surrounding_quotes(lit@)
            } else {
                Seq::empty()
            },
            _ => Seq::empty(),
        }
    }
}

fn any_doc_segment_exec(segs: &Vec<String>) -> (r: bool)
    ensures
        r == any_doc_segment(segs@),
{
    let n = segs.len();
    let mut i: usize = 0;
    while i < n
        invariant
            n == segs@.len(),
            i <= n,
            forall|j: int| 0 <= j < i ==> !seq_contains_run(segs@[j]@, "doc"@),
        decreases n - i,
    {
        if contains_run(segs[i].as_str(), "doc") {
            return true;
        }
        i = i + 1;
    }
    false
}

/// The documentation of an item (see `documentation`).
pub fn parse_documentation_from_attributes(attrs: &Vec<AttrItem>) -> (r: String)
    ensures
        r@ == documentation(attrs@),
{
    let mut out = String::new();
    let n = attrs.len();
    let mut i: usize = 0;
    assert(out@ =~= doc_text(attrs@.subrange(0, 0)));
    while i < n
        invariant
            n == attrs@.len(),
            i <= n,
            out@ == doc_text(attrs@.subrange(0, i as int)),
        decreases n - i,
    {
        let ghost sub = attrs@.subrange(0, i + 1);
        assert(sub.drop_last() =~= attrs@.subrange(0, i as int));
        assert(sub.last() == attrs@[i as int]);
        let ghost b = out@;
        match &attrs[i].meta {
            MetaKind::NameValue(_, Some(lit)) => {
                if any_doc_segment_exec(&attrs[i].path_segments) {
                    let st = unquoted(lit.as_str());
                    out.append(st.as_str());
                } else {
                    assert(b + Seq::<char>::empty() =~= b);
                }
            },
            _ => {
                assert(b + Seq::<char>::empty() =~= b);
            },
        }
        i = i + 1;
    }
    assert(attrs@.subrange(0, n as int) =~= attrs@);
    trim_string(out.as_str())
}

// ---------------------------------------------------------------- hiracfg

/// The text that a token gives as a configuration word: an identifier or a literal,
/// without surrounding quotes; other tokens give none.
pub open spec fn cfg_word(t: Tok) -> Option<Seq<char>> {
    match t {
        Tok::Ident(x) => Some(without_surrounding_quotes(x@)),
        Tok::Literal(x) => Some(without_surrounding_quotes(x@)),
        _ => None,
    }
}

/// The first two configuration words of the tokens.
pub open spec fn first_two_words(toks: Seq<Tok>) -> (Option<Seq<char>>, Option<Seq<char>>)
    decreases toks.len(),
{
    if toks.len() == 0 {
        (None, None)
    } else {
        let r = first_two_words(toks.drop_last());
        if r.1 is Some {
            r
        } else {
            match cfg_word(toks.last()) {
                None => r,
                Some(w) => if r.0 is None {
                    (Some(w), None)
                } else {
                    (r.0, Some(w))
                },
            }
        }
    }
}

/// Whether the attribute is a `hiracfg(..)` list.
pub open spec fn is_hiracfg(a: AttrItem) -> bool {
    a.meta is List && seq_ends_with(without_surrounding_quotes(a.path@), "hiracfg"@)
}

/// The configurations that the attributes give, in order: each `hiracfg(..)` with at least
/// one word gives its first word as the key and its second, if any, as the value; the
/// first configuration is applied to `applied_to`, the others to nothing.
pub open spec fn hiracfgs_of(attrs: Seq<AttrItem>, applied_to: Option<Seq<char>>) -> Seq<
    (Seq<char>, Option<Seq<char>>, Seq<char>),
>
    decreases attrs.len(),
{
    if attrs.len() == 0 {
        Seq::empty()
    } else {
        let a = attrs[0];
        let rest = attrs.subrange(1, attrs.len() as int);
        if is_hiracfg(a) {
            let w = first_two_words(a.meta->List_1@);
            match w.0 {
                Some(k) => seq![
                    (
                        k,
                        w.1,
                        match applied_to {
                            Some(x) => x,
                            None => Seq::empty(),
                        },
                    ),
                ] + hiracfgs_of(rest, None),
                None => hiracfgs_of(rest, applied_to),
            }
        } else {
            hiracfgs_of(rest, applied_to)
        }
    }
}

/// The attributes that are kept: all but the `hiracfg(..)` lists.
pub open spec fn kept_attrs(attrs: Seq<AttrItem>) -> Seq<AttrItem>
    decreases attrs.len(),
{
    if attrs.len() == 0 {
        Seq::empty()
    } else if is_hiracfg(attrs.last()) {
        kept_attrs(attrs.drop_last())
    } else {
        kept_attrs(attrs.drop_last()).push(attrs.last())
    }
}

pub open spec fn cfgs_view(v: Seq<Hiracfg>) -> Seq<(Seq<char>, Option<Seq<char>>, Seq<char>)> {
    Seq::new(
        v.len(),
        |i: int|
            (
                v[i].key@,
                match v[i].value {
                    Some(s) => Some(s@),
                    None => None,
                },
                v[i].applied_to@,
            ),
    )
}

fn first_words(toks: &Vec<Tok>) -> (r: (Option<String>, Option<String>))
    ensures
        (match r.0 {
            Some(s) => Some(s@),
            None => None,
        }, match r.1 {
            Some(s) => Some(s@),
            None => None,
        }) == first_two_words(toks@),
{
    let mut first: Option<String> = None;
    let mut second: Option<String> = None;
    let n = toks.len();
    let mut i: usize = 0;
    while i < n
        invariant
            n == toks@.len(),
            i <= n,
            second is Some ==> first is Some,
            (match first {
                Some(s) => Some(s@),
                None => None,
            }, match second {
                Some(s) => Some(s@),
                None => None,
            }) == first_two_words(toks@.subrange(0, i as int)),
        decreases n - i,
    {
        let ghost sub = toks@.subrange(0, i + 1);
        assert(sub.drop_last() =~= toks@.subrange(0, i as int));
        assert(sub.last() == toks@[i as int]);
        if second.is_some() {
            i = i + 1;
            continue;
        }
        let word = match &toks[i] {
            Tok::Ident(x) => Some(unquoted(x.as_str())),
            Tok::Literal(x) => Some(unquoted(x.as_str())),
            _ => None,
        };
        match word {
            None => {},
            Some(w) => {
                if first.is_none() {
                    first = Some(w);
                } else {
                    second = Some(w);
                }
            },
        }
        i = i + 1;
    }
    assert(toks@.subrange(0, n as int) =~= toks@);
    (first, second)
}

fn is_hiracfg_exec(a: &AttrItem) -> (r: bool)
    ensures
        r == is_hiracfg(*a),
{
    match &a.meta {
        MetaKind::List(_, _) => {
            let p = unquoted(a.path.as_str());
            ends_with(p.as_str(), "hiracfg")
        },
        _ => false,
    }
}

/// Takes the `hiracfg(..)` lists out of the attributes (each paired with what the caller
/// keeps beside it) and gives the configurations they hold (see `hiracfgs_of`).
pub fn extract_hiracfgs<T>(attributes: &mut Vec<(AttrItem, T)>, applied_to: Option<String>) -> (r: Vec<Hiracfg>)
    ensures
        ({
            let a = Seq::new(old(attributes)@.len(), |i: int| old(attributes)@[i].0);
            &&& cfgs_view(r@) == hiracfgs_of(
                a,
                match applied_to {
                    Some(s) => Some(s@),
                    None => None,
                },
            )
            &&& Seq::new(final(attributes)@.len(), |i: int| final(attributes)@[i].0) == kept_attrs(a)
        }),
{
    let ghost a = Seq::new(attributes@.len(), |i: int| attributes@[i].0);
    let mut src: Vec<(AttrItem, T)> = Vec::new();
    std::mem::swap(&mut src, attributes);
    let mut applied = applied_to;
    let ghost ap0 = opt_view(applied);
    let mut cfgs: Vec<Hiracfg> = Vec::new();
    let n = src.len();
    let mut k: usize = 0;
    assert(Seq::new(attributes@.len(), |i: int| attributes@[i].0) =~= kept_attrs(a.subrange(0, 0)));
    assert(a.subrange(0, n as int) =~= a);
    while k < n
        invariant
            n == a.len(),
            k <= n,
            src@.len() == n - k,
            forall|q: int| 0 <= q < n - k ==> (#[trigger] src@[q]).0 == a[k + q],
            Seq::new(attributes@.len(), |i: int| attributes@[i].0) == kept_attrs(a.subrange(0, k as int)),
            cfgs_view(cfgs@) + hiracfgs_of(a.subrange(k as int, n as int), opt_view(applied))
                == hiracfgs_of(a, ap0),
        decreases n - k,
    {
        let ghost rest = a.subrange(k as int, n as int);
        assert(rest[0] == a[k as int]);
        assert(rest.subrange(1, rest.len() as int) =~= a.subrange(k + 1, n as int));
        let ghost upto = a.subrange(0, k + 1);
        assert(upto.drop_last() =~= a.subrange(0, k as int));
        assert(upto.last() == a[k as int]);
        let ghost pre_src = src@;
        let item = src.remove(0);
        assert forall|q: int| 0 <= q < n - k - 1 implies (#[trigger] src@[q]).0 == a[k + 1 + q] by {
            assert(src@[q] == pre_src[q + 1]);
        }
        assert(item.0 == a[k as int]);
        if is_hiracfg_exec(&item.0) {
            let words = match &item.0.meta {
                MetaKind::List(_, toks) => first_words(toks),
                _ => (None, None),
            };
            match words.0 {
                Some(key) => {
                    let applied_text = match applied {
                        Some(s) => s,
                        None => String::new(),
                    };
                    applied = None;
                    let ghost before = cfgs_view(cfgs@);
                    let cfg = Hiracfg { key, value: words.1, applied_to: applied_text };
                    let ghost cv = cfgs_view(seq![cfg])[0];
                    cfgs.push(cfg);
                    assert(cfgs_view(cfgs@) =~= before.push(cv));
                    assert(before.push(cv) + hiracfgs_of(a.subrange(k + 1, n as int), None) =~= before + (seq![cv] + hiracfgs_of(a.subrange(k + 1, n as int), None)));
                },
                None => {},
            }
        } else {
            let ghost before = Seq::new(attributes@.len(), |i: int| attributes@[i].0);
            let ghost it = item.0;
            attributes.push(item);
            assert(Seq::new(attributes@.len(), |i: int| attributes@[i].0) =~= before.push(it));
        }
        k = k + 1;
    }
    assert(a.subrange(n as int, n as int) =~= Seq::<AttrItem>::empty());
    assert(cfgs_view(cfgs@) + Seq::<(Seq<char>, Option<Seq<char>>, Seq<char>)>::empty() =~= cfgs_view(cfgs@));
    assert(a.subrange(0, n as int) =~= a);
    cfgs
}

/// The string literals of a token stream, without surrounding quotes; other tokens (and
/// groups, which are not entered) are passed over.
pub fn get_list_of_strings(stream: &Vec<Tok>) -> (r: Vec<String>)
    ensures
        strings_view(r@) == literal_texts(stream@),
{
    let mut out: Vec<String> = Vec::new();
    let n = stream.len();
    let mut i: usize = 0;
    assert(strings_view(out@) =~= literal_texts(stream@.subrange(0, 0)));
    while i < n
        invariant
            n == stream@.len(),
            i <= n,
            strings_view(out@) == literal_texts(stream@.subrange(0, i as int)),
        decreases n - i,
    {
        let ghost sub = stream@.subrange(0, i + 1);
        assert(sub.drop_last() =~= stream@.subrange(0, i as int));
        assert(sub.last() == stream@[i as int]);
        if let Tok::Literal(l) = &stream[i] {
            let ghost b = strings_view(out@);
            let s = unquoted(l.as_str());
            let ghost sv = s@;
            out.push(s);
            assert(strings_view(out@) =~= b.push(sv));
        }
        i = i + 1;
    }
    assert(stream@.subrange(0, n as int) =~= stream@);
    out
}

/// The texts of the literals of a token stream, unquoted.
pub open spec fn literal_texts(s: Seq<Tok>) -> Seq<Seq<char>>
    decreases s.len(),
{
    if s.len() == 0 {
        Seq::empty()
    } else {
        literal_texts(s.drop_last()) + match s.last() {
            Tok::Literal(l) => seq![without_surrounding_quotes(l@)],
            _ => Seq::empty(),
        }
    }
}

// ---------------------------------------------------------------- visibility and fields

/// The visibility of an item.
#[derive(Debug, PartialEq, Eq, Structural, Clone, Copy)]
pub enum ItemVisibility {
    Public,
    Restricted,
    Inherited,
}

/// Whether the item is `pub`.
pub fn is_public(vis: &ItemVisibility) -> (r: bool)
    ensures
        r == (*vis == ItemVisibility::Public),
{
    match vis {
        ItemVisibility::Public => true,
        _ => false,
    }
}

/// Makes the item public or private: a public item made private becomes private
/// (inherited), a restricted or private item made public becomes `pub`; otherwise it stays.
pub fn set_visibility(vis: &mut ItemVisibility, is_pub: bool)
    ensures
        *final(vis) == (match (*old(vis), is_pub) {
            (ItemVisibility::Public, false) => ItemVisibility::Inherited,
            (ItemVisibility::Restricted, true) => ItemVisibility::Public,
            (ItemVisibility::Inherited, true) => ItemVisibility::Public,
            (v, _) => v,
        }),
{
    match (*vis, is_pub) {
        (ItemVisibility::Public, false) => {
            *vis = ItemVisibility::Inherited;
        },
        (ItemVisibility::Restricted, true) => {
            *vis = ItemVisibility::Public;
        },
        (ItemVisibility::Inherited, true) => {
            *vis = ItemVisibility::Public;
        },
        _ => {},
    }
}

/// A field of a struct as the parsers read it: its name (none for a tuple field), its type
/// as printed, and its attributes.
#[derive(Debug)]
pub struct FieldItem {
    pub name: Option<String>,
    pub ty: String,
    pub attrs: Vec<AttrItem>,
}

/// The (name, type, documentation) of each field: a field without a name is called `a`,
/// the type is printed without surrounding quotes.
pub open spec fn field_entries(fields: Seq<FieldItem>) -> Seq<(Seq<char>, Seq<char>, Seq<char>)> {
    Seq::new(
        fields.len(),
        |i: int|
            (
                without_surrounding_quotes(
                    match fields[i].name {
                        Some(n) => n@,
                        None => "a"@,
                    },
                ),
                without_surrounding_quotes(fields[i].ty@),
                documentation(fields[i].attrs@),
            ),
    )
}

pub open spec fn triples_view(v: Seq<(String, String, String)>) -> Seq<(Seq<char>, Seq<char>, Seq<char>)> {
    Seq::new(v.len(), |i: int| (v[i].0@, v[i].1@, v[i].2@))
}

/// The (name, type, documentation) of each field (see `field_entries`).
pub fn iter_fields(fields: &Vec<FieldItem>) -> (r: Vec<(String, String, String)>)
    ensures
        triples_view(r@) == field_entries(fields@),
{
    let mut out: Vec<(String, String, String)> = Vec::new();
    let n = fields.len();
    let mut i: usize = 0;
    while i < n
        invariant
            n == fields@.len(),
            i <= n,
            triples_view(out@) == field_entries(fields@).subrange(0, i as int),
        decreases n - i,
    {
        let f = &fields[i];
        let name = match &f.name {
            Some(x) => unquoted(x.as_str()),
            None => unquoted("a"),
        };
        let typ = unquoted(f.ty.as_str());
        let doc = parse_documentation_from_attributes(&f.attrs);
        let ghost b = triples_view(out@);
        let ghost t = (name@, typ@, doc@);
        out.push((name, typ, doc));
        assert(triples_view(out@) =~= b.push(t));
        assert(field_entries(fields@).subrange(0, i + 1) =~= field_entries(fields@).subrange(0, i as int).push(field_entries(fields@)[i as int]));
        i = i + 1;
    }
    assert(field_entries(fields@).subrange(0, n as int) =~= field_entries(fields@));
    out
}

} // verus!
