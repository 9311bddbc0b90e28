use vstd::prelude::*;
use vstd::string::*;

verus! {

/// Appends one character to a string.
/// Calls `String::push`, whose documentation says that it appends the given char to the end
/// of the string; the contract states exactly that.
#[verifier::external_body]
pub fn push_char(s: &mut String, c: char)
    ensures
        final(s)@ == old(s)@.push(c),
{
    s.push(c);
}

/// The sequence with every occurrence of `c` taken out.
pub open spec fn without_char(s: Seq<char>, c: char) -> Seq<char>
    decreases s.len(),
{
    if s.len() == 0 {
        s
    } else if s.last() == c {
        without_char(s.drop_last(), c)
    } else {
        without_char(s.drop_last(), c).push(s.last())
    }
}

/// `s` with every occurrence of any of the characters of `cs` taken out.
pub open spec fn without_chars(s: Seq<char>, cs: Seq<char>) -> Seq<char>
    decreases s.len(),
{
    if s.len() == 0 {
        s
    } else if cs.contains(s.last()) {
        without_chars(s.drop_last(), cs)
    } else {
        without_chars(s.drop_last(), cs).push(s.last())
    }
}

pub open spec fn seq_starts_with(s: Seq<char>, p: Seq<char>) -> bool {
    p.len() <= s.len() && s.subrange(0, p.len() as int) == p
}

pub open spec fn seq_ends_with(s: Seq<char>, p: Seq<char>) -> bool {
    p.len() <= s.len() && s.subrange(s.len() - p.len(), s.len() as int) == p
}

/// Whether `needle` occurs in `hay` as a contiguous run.
pub open spec fn seq_contains_run(hay: Seq<char>, needle: Seq<char>) -> bool {
    exists|i: int|
        0 <= i && i + needle.len() <= hay.len() && #[trigger] hay.subrange(i, i + needle.len())
            == needle
}

/// A run found in either part of a concatenation is found in the whole.
pub proof fn lemma_run_in_concat(s: Seq<char>, t: Seq<char>, x: Seq<char>)
    ensures
        seq_contains_run(s, x) ==> seq_contains_run(s + t, x),
        seq_contains_run(t, x) ==> seq_contains_run(s + t, x),
{
    if seq_contains_run(s, x) {
        let i = choose|i: int| 0 <= i && i + x.len() <= s.len() && #[trigger] s.subrange(i, i + x.len()) == x;
        assert((s + t).subrange(i, i + x.len()) =~= s.subrange(i, i + x.len()));
    }
    if seq_contains_run(t, x) {
        let j = choose|j: int| 0 <= j && j + x.len() <= t.len() && #[trigger] t.subrange(j, j + x.len()) == x;
        assert((s + t).subrange(s.len() + j, s.len() + j + x.len()) =~= t.subrange(j, j + x.len()));
    }
}

/// A run found in a part of a concatenation is found in the whole, for every concatenation.
pub proof fn lemma_runs_in_concats()
    ensures
        forall|s: Seq<char>, t: Seq<char>, x: Seq<char>|
            (seq_contains_run(s, x) || seq_contains_run(t, x)) ==> #[trigger] seq_contains_run(s + t, x),
{
    assert forall|s: Seq<char>, t: Seq<char>, x: Seq<char>|
        (seq_contains_run(s, x) || seq_contains_run(t, x)) implies #[trigger] seq_contains_run(s + t, x) by {
        lemma_run_in_concat(s, t, x);
    }
}

/// A text that ends with `x`, followed by `b` and by a text that starts with `y`, holds
/// `x`, `b` and `y` in a row.
pub proof fn lemma_run_across(s1: Seq<char>, b: Seq<char>, s2: Seq<char>, x: Seq<char>, y: Seq<char>)
    requires
        seq_ends_with(s1, x),
        seq_starts_with(s2, y),
    ensures
        seq_contains_run(s1 + b + s2, x + b + y),
        seq_contains_run(s1 + b, x + b),
{
    let w = s1 + b + s2;
    let k = s1.len() - x.len();
    assert(w.subrange(k, k + (x + b + y).len()) =~= x + b + y);
    assert((s1 + b).subrange(k, k + (x + b).len()) =~= x + b);
}

/// A text that ends with `x` still does when something is put in front of it.
pub proof fn lemma_ends_with_concat(a: Seq<char>, b: Seq<char>, x: Seq<char>)
    requires
        seq_ends_with(b, x),
    ensures
        seq_ends_with(a + b, x),
{
    let w = a + b;
    assert(w.subrange(w.len() - x.len(), w.len() as int) =~= b.subrange(b.len() - x.len(), b.len() as int));
}

/// A text holds itself.
pub proof fn lemma_run_self(s: Seq<char>)
    ensures
        seq_contains_run(s, s),
{
    let i: int = 0;
    assert(s.subrange(i, i + s.len()) =~= s);
}

/// A new string holding the characters of `s`.
pub fn to_string(s: &str) -> (r: String)
    ensures
        r@ == s@,
{
    String::from_str(s)
}

/// Whether two strings hold the same characters.
pub fn str_eq(a: &str, b: &str) -> (r: bool)
    ensures
        r == (a@ == b@),
{
    let n = a.unicode_len();
    if n != b.unicode_len() {
        return false;
    }
    let mut i: usize = 0;
    while i < n
        invariant
            n == a@.len(),
            n == b@.len(),
            0 <= i <= n,
            forall|j: int| 0 <= j < i ==> a@[j] == b@[j],
        decreases n - i,
    {
        if a.get_char(i) != b.get_char(i) {
            return false;
        }
        i = i + 1;
    }
    assert(a@ =~= b@);
    true
}

/// Whether `s` begins with `p`.
pub fn starts_with(s: &str, p: &str) -> (r: bool)
    ensures
        r == seq_starts_with(s@, p@),
{
    let n = p.unicode_len();
    let m = s.unicode_len();
    if n > m {
        return false;
    }
    let mut i: usize = 0;
    while i < n
        invariant
            n == p@.len(),
            m == s@.len(),
            n <= m,
            0 <= i <= n,
            forall|j: int| 0 <= j < i ==> s@[j] == p@[j],
        decreases n - i,
    {
        if s.get_char(i) != p.get_char(i) {
            assert(s@.subrange(0, n as int)[i as int] == s@[i as int]);
            return false;
        }
        i = i + 1;
    }
    assert(s@.subrange(0, n as int) =~= p@);
    true
}

/// Whether `s` ends with `p`.
pub fn ends_with(s: &str, p: &str) -> (r: bool)
    ensures
        r == seq_ends_with(s@, p@),
{
    let n = p.unicode_len();
    let m = s.unicode_len();
    if n > m {
        return false;
    }
    let off = m - n;
    let mut i: usize = 0;
    while i < n
        invariant
            n == p@.len(),
            m == s@.len(),
            n <= m,
            off == m - n,
            0 <= i <= n,
            forall|j: int| 0 <= j < i ==> s@[off + j] == p@[j],
        decreases n - i,
    {
        if s.get_char(off + i) != p.get_char(i) {
            assert(s@.subrange(off as int, m as int)[i as int] == s@[off + i]);
            return false;
        }
        i = i + 1;
    }
    assert(s@.subrange(off as int, m as int) =~= p@);
    true
}

/// Whether `needle` occurs in `hay`.
pub fn contains_run(hay: &str, needle: &str) -> (r: bool)
    ensures
        r == seq_contains_run(hay@, needle@),
{
    let n = needle.unicode_len();
    let m = hay.unicode_len();
    if n > m {
        assert forall|i: int| 0 <= i && i + needle@.len() <= hay@.len() implies #[trigger] hay@.subrange(
            i,
            i + needle@.len(),
        ) != needle@ by {}
        return false;
    }
    if n == 0 {
        assert(hay@.subrange(0int, 0int + needle@.len()) =~= needle@);
        return true;
    }
    let mut start: usize = 0;
    while start <= m - n
        invariant
            n == needle@.len(),
            m == hay@.len(),
            0 < n <= m,
            start <= m - n + 1,
            forall|i: int|
                0 <= i < start ==> #[trigger] hay@.subrange(i, i + needle@.len()) != needle@,
        decreases m + 1 - start,
    {
        let mut j: usize = 0;
        let mut same = true;
        while j < n
            invariant
                n == needle@.len(),
                m == hay@.len(),
                start + n <= m,
                0 <= j <= n,
                same ==> forall|k: int| 0 <= k < j ==> hay@[start + k] == needle@[k],
                !same ==> hay@.subrange(start as int, start + n) != needle@,
            decreases n - j,
        {
            if same && hay.get_char(start + j) != needle.get_char(j) {
                assert(hay@.subrange(start as int, start + n)[j as int] == hay@[start + j]);
                same = false;
            }
            j = j + 1;
        }
        if same {
            assert(hay@.subrange(start as int, start + needle@.len()) =~= needle@);
            return true;
        }
        start = start + 1;
    }
    proof {
        true_when_absent(hay@, needle@, start as int);
    }
    false
}

proof fn true_when_absent(hay: Seq<char>, needle: Seq<char>, start: int)
    requires
        start + needle.len() > hay.len(),
        forall|i: int| 0 <= i < start ==> #[trigger] hay.subrange(i, i + needle.len()) != needle,
    ensures
        !seq_contains_run(hay, needle),
{
}

/// A copy of `s` with every occurrence of `c` taken out (`s.replace(c, "")`).
pub fn remove_char(s: &str, c: char) -> (r: String)
    ensures
        r@ == without_char(s@, c),
{
    let n = s.unicode_len();
    let mut out = String::new();
    let mut i: usize = 0;
    while i < n
        invariant
            n == s@.len(),
            0 <= i <= n,
            out@ == without_char(s@.subrange(0, i as int), c),
        decreases n - i,
    {
        let ch = s.get_char(i);
        assert(s@.subrange(0, i + 1).drop_last() =~= s@.subrange(0, i as int));
        if ch != c {
            push_char(&mut out, ch);
        }
        i = i + 1;
    }
    assert(s@.subrange(0, n as int) =~= s@);
    out
}

/// A copy of `s` with every occurrence of the characters of `cs` taken out.
pub fn remove_chars(s: &str, cs: &str) -> (r: String)
    ensures
        r@ == without_chars(s@, cs@),
{
    let n = s.unicode_len();
    let k = cs.unicode_len();
    let mut out = String::new();
    let mut i: usize = 0;
    while i < n
        invariant
            n == s@.len(),
            k == cs@.len(),
            0 <= i <= n,
            out@ == without_chars(s@.subrange(0, i as int), cs@),
        decreases n - i,
    {
        let ch = s.get_char(i);
        assert(s@.subrange(0, i + 1).drop_last() =~= s@.subrange(0, i as int));
        let mut found = false;
        let mut j: usize = 0;
        while j < k
            invariant
                k == cs@.len(),
                0 <= j <= k,
                found == (exists|q: int| 0 <= q < j && cs@[q] == ch),
            decreases k - j,
        {
            if cs.get_char(j) == ch {
                found = true;
            }
            j = j + 1;
        }
        if !found {
            push_char(&mut out, ch);
        } else {
            proof {
                let q = choose|q: int| 0 <= q < k && cs@[q] == ch;
                assert(cs@.contains(ch));
            }
        }
        i = i + 1;
    }
    assert(s@.subrange(0, n as int) =~= s@);
    out
}

/// The decimal digits of a natural number, most significant first.
pub open spec fn decimal(n: nat) -> Seq<char>
    decreases n,
{
    if n < 10 {
        seq![digit_char(n)]
    } else {
        decimal(n / 10).push(digit_char(n % 10))
    }
}

pub open spec fn digit_char(d: nat) -> char {
    if d == 0 {
        '0'
    } else if d == 1 {
        '1'
    } else if d == 2 {
        '2'
    } else if d == 3 {
        '3'
    } else if d == 4 {
        '4'
    } else if d == 5 {
        '5'
    } else if d == 6 {
        '6'
    } else if d == 7 {
        '7'
    } else if d == 8 {
        '8'
    } else {
        '9'
    }
}

fn digit(d: u64) -> (c: char)
    requires
        d < 10,
    ensures
        c == digit_char(d as nat),
{
    if d == 0 {
        '0'
    } else if d == 1 {
        '1'
    } else if d == 2 {
        '2'
    } else if d == 3 {
        '3'
    } else if d == 4 {
        '4'
    } else if d == 5 {
        '5'
    } else if d == 6 {
        '6'
    } else if d == 7 {
        '7'
    } else if d == 8 {
        '8'
    } else {
        '9'
    }
}

/// Appends the decimal form of `n` to `out`.
pub fn push_decimal(out: &mut String, n: u64)
    ensures
        final(out)@ == old(out)@ + decimal(n as nat),
    decreases n,
{
    if n < 10 {
        push_char(out, digit(n));
        assert(old(out)@.push(digit_char(n as nat)) =~= old(out)@ + decimal(n as nat));
    } else {
        push_decimal(out, n / 10);
        push_char(out, digit(n % 10));
        assert(old(out)@ + decimal((n / 10) as nat) + seq![digit_char((n % 10) as nat)]
            =~= old(out)@ + decimal(n as nat));
    }
}

/// The decimal form of `n` as a string.
pub fn decimal_string(n: u64) -> (r: String)
    ensures
        r@ == decimal(n as nat),
{
    let mut out = String::new();
    push_decimal(&mut out, n);
    assert(Seq::<char>::empty() + decimal(n as nat) =~= decimal(n as nat));
    out
}

/// Concatenates three strings.
pub fn concat3(a: &str, b: &str, c: &str) -> (r: String)
    ensures
        r@ == a@ + b@ + c@,
{
    let mut out = String::from_str(a);
    out.append(b);
    out.append(c);
    out
}

/// The sequence without a pair of surrounding double quotes, when it starts and ends with one.
/// A lone quote character counts as both and gives the empty sequence.
pub open spec fn strip_one_quote_pair(s: Seq<char>) -> Seq<char> {
    if s.len() >= 1 && s[0] == '"' && s.last() == '"' {
        if s.len() == 1 {
            Seq::empty()
        } else {
            s.subrange(1, s.len() - 1)
        }
    } else {
        s
    }
}

/// Takes off one pair of surrounding double quotes, if present.
pub fn strip_quote_pair(s: &str) -> (r: String)
    ensures
        r@ == strip_one_quote_pair(s@),
{
    let n = s.unicode_len();
    if n >= 1 && s.get_char(0) == '"' && s.get_char(n - 1) == '"' {
        if n == 1 {
            String::new()
        } else {
            let inner = s.substring_char(1, n - 1);
            String::from_str(inner)
        }
    } else {
        String::from_str(s)
    }
}


pub open spec fn strings_view(v: Seq<String>) -> Seq<Seq<char>> {
    Seq::new(v.len(), |i: int| v[i]@)
}

/// The text that `{:?}` prints for a list of strings: the strings quoted and escaped,
/// separated by `, `, in square brackets.
pub open spec fn debug_list_text(items: Seq<Seq<char>>) -> Seq<char> {
    "["@ + debug_items_text(items) + "]"@
}

/// The strings quoted and escaped as `{:?}` does, separated by `, `.
pub open spec fn debug_items_text(items: Seq<Seq<char>>) -> Seq<char>
    decreases items.len(),
{
    if items.len() == 0 {
        Seq::empty()
    } else if items.len() == 1 {
        debug_str_text(items[0])
    } else {
        debug_items_text(items.drop_last()) + ", "@ + debug_str_text(items.last())
    }
}

/// Formats a list of strings as `{:?}` does (see `debug_list_text`).
pub fn debug_string_list(items: &Vec<String>) -> (r: String)
    ensures
        r@ == debug_list_text(strings_view(items@)),
{
    let ghost v = strings_view(items@);
    let mut body = String::new();
    let mut i: usize = 0;
    while i < items.len()
        invariant
            i <= items@.len(),
            v == strings_view(items@),
            body@ == debug_items_text(v.subrange(0, i as int)),
        decreases items@.len() - i,
    {
        let d = debug_str(items[i].as_str());
        proof {
            assert(v.subrange(0, i + 1).drop_last() =~= v.subrange(0, i as int));
            assert(v.subrange(0, i + 1).last() == items@[i as int]@);
            if i == 0 {
                assert(v.subrange(0, 0) =~= Seq::<Seq<char>>::empty());
                assert(v.subrange(0, 1)[0] == items@[0]@);
            }
        }
        if i > 0 {
            body.append(", ");
        }
        body.append(d.as_str());
        i = i + 1;
    }
    assert(v.subrange(0, items@.len() as int) =~= v);
    concat3("[", body.as_str(), "]")
}

/// `true` or `false`.
pub open spec fn bool_text(b: bool) -> Seq<char> {
    if b {
        "true"@
    } else {
        "false"@
    }
}

/// The text of a boolean.
pub fn bool_string(b: bool) -> (r: String)
    ensures
        r@ == bool_text(b),
{
    if b {
        to_string("true")
    } else {
        to_string("false")
    }
}

/// The text that `{:?}` prints for a string: the string quoted and escaped.
pub uninterp spec fn debug_str_text(s: Seq<char>) -> Seq<char>;

/// Formats a string with `{:?}`. Calls std's `Debug` for `str` through `format!`; the
/// contract only names the result, as a function of the characters.
#[verifier::external_body]
pub fn debug_str(s: &str) -> (r: String)
    ensures
        r@ == debug_str_text(s@),
{
    format!("{:?}", s)
}

/// Whether a character is an ASCII letter or digit.
pub open spec fn is_ascii_alnum(c: char) -> bool {
    ('a' <= c && c <= 'z') || ('A' <= c && c <= 'Z') || ('0' <= c && c <= '9')
}

/// Whether a character is an ASCII letter or digit.
pub fn ascii_alnum(c: char) -> (r: bool)
    ensures
        r == is_ascii_alnum(c),
{
    ('a' <= c && c <= 'z') || ('A' <= c && c <= 'Z') || ('0' <= c && c <= '9')
}

/// The number of bytes of the UTF-8 encoding of a string.
pub open spec fn byte_len(s: Seq<char>) -> nat {
    vstd::utf8::encode_utf8(s).len()
}

/// The number of bytes of the UTF-8 encoding of a string (`str::len`).
pub fn byte_length(s: &str) -> (n: usize)
    ensures
        n as nat == byte_len(s@),
{
    let b = s.as_bytes();
    b.len()
}

/// `s` with every occurrence of the non-empty `pat` taken out, scanning left to right
/// (`str::replace(pat, "")`).
pub open spec fn remove_all(s: Seq<char>, pat: Seq<char>) -> Seq<char>
    decreases s.len(),
{
    if pat.len() == 0 || s.len() < pat.len() {
        s
    } else if s.subrange(0, pat.len() as int) == pat {
        remove_all(s.subrange(pat.len() as int, s.len() as int), pat)
    } else {
        seq![s[0]] + remove_all(s.subrange(1, s.len() as int), pat)
    }
}

/// Whether `pat` occurs in `s` at index `i`.
pub open spec fn run_at(s: Seq<char>, pat: Seq<char>, i: int) -> bool {
    0 <= i && i + pat.len() <= s.len() && s.subrange(i, i + pat.len()) == pat
}

fn run_at_exec(s: &str, pat: &str, i: usize, n: usize, p: usize) -> (r: bool)
    requires
        n == s@.len(),
        p == pat@.len(),
    ensures
        r == run_at(s@, pat@, i as int),
{
    if i > n || p > n - i {
        return false;
    }
    let mut k: usize = 0;
    while k < p
        invariant
            n == s@.len(),
            p == pat@.len(),
            i + p <= n,
            0 <= k <= p,
            forall|q: int| 0 <= q < k ==> s@[i + q] == pat@[q],
        decreases p - k,
    {
        if s.get_char(i + k) != pat.get_char(k) {
            assert(s@.subrange(i as int, i + p)[k as int] == s@[i + k]);
            return false;
        }
        k = k + 1;
    }
    assert(s@.subrange(i as int, i + p) =~= pat@);
    true
}

/// A copy of `s` with every occurrence of `pat` taken out (`s.replace(pat, "")`).
pub fn remove_all_string(s: &str, pat: &str) -> (r: String)
    ensures
        r@ == remove_all(s@, pat@),
{
    let n = s.unicode_len();
    let p = pat.unicode_len();
    if p == 0 {
        return to_string(s);
    }
    let mut out = String::new();
    let mut i: usize = 0;
    assert(s@.subrange(0, n as int) =~= s@);
    while i < n
        invariant
            n == s@.len(),
            p == pat@.len(),
            p > 0,
            0 <= i <= n,
            out@ + remove_all(s@.subrange(i as int, n as int), pat@) == remove_all(s@, pat@),
        decreases n - i,
    {
        let ghost rest = s@.subrange(i as int, n as int);
        if run_at_exec(s, pat, i, n, p) {
            assert(rest.subrange(0, p as int) =~= s@.subrange(i as int, i + p));
            assert(rest.subrange(p as int, rest.len() as int) =~= s@.subrange(i + p, n as int));
            i = i + p;
        } else {
            proof {
                if rest.len() >= p {
                    assert(rest.subrange(0, p as int) =~= s@.subrange(i as int, i + p));
                }
            }
            assert(rest.subrange(1, rest.len() as int) =~= s@.subrange(i + 1, n as int));
            let c = s.get_char(i);
            let ghost before = out@;
            push_char(&mut out, c);
            assert(out@ + remove_all(s@.subrange(i + 1, n as int), pat@) =~= before + (seq![c]
                + remove_all(s@.subrange(i + 1, n as int), pat@)));
            proof {
                if rest.len() < p {
                    assert(rest =~= seq![c] + s@.subrange(i + 1, n as int));
                    assert(remove_all(s@.subrange(i + 1, n as int), pat@) == s@.subrange(
                        i + 1,
                        n as int,
                    ));
                }
            }
            i = i + 1;
        }
    }
    assert(remove_all(s@.subrange(n as int, n as int), pat@) =~= Seq::<char>::empty());
    assert(out@ + Seq::<char>::empty() =~= out@);
    out
}

/// Whether a character is white space as `char::is_whitespace` defines it.
pub open spec fn is_white_space(c: char) -> bool {
    ||| c == ' '
    ||| c == '\t'
    ||| c == '\n'
    ||| c == '\u{0B}'
    ||| c == '\u{0C}'
    ||| c == '\r'
    ||| c == '\u{85}'
    ||| c == '\u{A0}'
    ||| c == '\u{1680}'
    ||| ('\u{2000}' <= c && c <= '\u{200A}')
    ||| c == '\u{2028}'
    ||| c == '\u{2029}'
    ||| c == '\u{202F}'
    ||| c == '\u{205F}'
    ||| c == '\u{3000}'
}

fn white_space(c: char) -> (r: bool)
    ensures
        r == is_white_space(c),
{
    c == ' ' || c == '\t' || c == '\n' || c == '\u{0B}' || c == '\u{0C}' || c == '\r' || c
        == '\u{85}' || c == '\u{A0}' || c == '\u{1680}' || ('\u{2000}' <= c && c <= '\u{200A}')
        || c == '\u{2028}' || c == '\u{2029}' || c == '\u{202F}' || c == '\u{205F}' || c
        == '\u{3000}'
}

/// The sequence without leading white space.
pub open spec fn trim_start_ws(s: Seq<char>) -> Seq<char>
    decreases s.len(),
{
    if s.len() > 0 && is_white_space(s[0]) {
        trim_start_ws(s.subrange(1, s.len() as int))
    } else {
        s
    }
}

/// The sequence without trailing white space.
pub open spec fn trim_end_ws(s: Seq<char>) -> Seq<char>
    decreases s.len(),
{
    if s.len() > 0 && is_white_space(s.last()) {
        trim_end_ws(s.drop_last())
    } else {
        s
    }
}

/// The sequence without leading and trailing white space (`str::trim`).
pub open spec fn trim_ws(s: Seq<char>) -> Seq<char> {
    trim_end_ws(trim_start_ws(s))
}

/// A copy of `s` without leading and trailing white space.
pub fn trim_string(s: &str) -> (r: String)
    ensures
        r@ == trim_ws(s@),
{
    let n = s.unicode_len();
    let mut a: usize = 0;
    assert(s@.subrange(0, n as int) =~= s@);
    while a < n && white_space(s.get_char(a))
        invariant
            n == s@.len(),
            0 <= a <= n,
            trim_start_ws(s@) == trim_start_ws(s@.subrange(a as int, n as int)),
        decreases n - a,
    {
        assert(s@.subrange(a as int, n as int).subrange(1, n - a) =~= s@.subrange(a + 1, n as int));
        a = a + 1;
    }
    let ghost t = s@.subrange(a as int, n as int);
    assert(trim_start_ws(t) == t);
    let mut b: usize = n;
    while b > a && white_space(s.get_char(b - 1))
        invariant
            n == s@.len(),
            0 <= a <= b <= n,
            trim_end_ws(t) == trim_end_ws(s@.subrange(a as int, b as int)),
        decreases b,
    {
        assert(s@.subrange(a as int, b as int).drop_last() =~= s@.subrange(a as int, b - 1));
        b = b - 1;
    }
    to_string(s.substring_char(a, b))
}

/// The index of the first occurrence of `pat` in `s` at or after `i`.
pub open spec fn first_run_from(s: Seq<char>, pat: Seq<char>, i: int) -> Option<int>
    decreases s.len() + 1 - i,
{
    if i < 0 || i + pat.len() > s.len() {
        None
    } else if run_at(s, pat, i) {
        Some(i)
    } else {
        first_run_from(s, pat, i + 1)
    }
}

/// The part of `s` before the first occurrence of `pat`, when it occurs
/// (the first half of `str::split_once`).
pub fn split_once_prefix(s: &str, pat: &str) -> (r: Option<String>)
    ensures
        match first_run_from(s@, pat@, 0) {
            Some(i) => r matches Some(x) && x@ == s@.subrange(0, i),
            None => r is None,
        },
{
    let n = s.unicode_len();
    let p = pat.unicode_len();
    let mut i: usize = 0;
    loop
        invariant
            n == s@.len(),
            p == pat@.len(),
            0 <= i <= n,
            first_run_from(s@, pat@, 0) == first_run_from(s@, pat@, i as int),
        decreases n - i,
    {
        if p > n - i {
            return None;
        }
        if run_at_exec(s, pat, i, n, p) {
            return Some(to_string(s.substring_char(0, i)));
        }
        assert(p > 0) by {
            if p == 0 {
                assert(s@.subrange(i as int, i as int) =~= pat@);
            }
        }
        i = i + 1;
    }
}
/// The index of the first occurrence of `pat` in `s` (`str::find`, counted in characters).
pub fn find_run(s: &str, pat: &str) -> (r: Option<usize>)
    ensures
        match first_run_from(s@, pat@, 0) {
            Some(i) => r == Some(i as usize),
            None => r is None,
        },
{
    let n = s.unicode_len();
    let p = pat.unicode_len();
    let mut i: usize = 0;
    loop
        invariant
            n == s@.len(),
            p == pat@.len(),
            0 <= i <= n,
            first_run_from(s@, pat@, 0) == first_run_from(s@, pat@, i as int),
        decreases n - i,
    {
        if p > n - i {
            return None;
        }
        if run_at_exec(s, pat, i, n, p) {
            return Some(i);
        }
        assert(p > 0) by {
            if p == 0 {
                assert(s@.subrange(i as int, i as int) =~= pat@);
            }
        }
        i = i + 1;
    }
}
/// The parts of `s` before and after the first occurrence of `pat` (`str::split_once`).
pub open spec fn split_once_spec(s: Seq<char>, pat: Seq<char>) -> Option<(Seq<char>, Seq<char>)> {
    match first_run_from(s, pat, 0) {
        Some(i) => Some((s.subrange(0, i), s.subrange(i + pat.len(), s.len() as int))),
        None => None,
    }
}

/// Splits `s` at the first occurrence of `pat` (see `split_once_spec`).
pub fn split_once(s: &str, pat: &str) -> (r: Option<(String, String)>)
    ensures
        match split_once_spec(s@, pat@) {
            Some(p) => r matches Some(x) && x.0@ == p.0 && x.1@ == p.1,
            None => r is None,
        },
{
    match find_run(s, pat) {
        Some(i) => {
            proof {
                lemma_first_run_bound(s@, pat@, 0);
            }
            let n = s.unicode_len();
            let p = pat.unicode_len();
            Some((to_string(s.substring_char(0, i)), to_string(s.substring_char(i + p, n))))
        },
        None => None,
    }
}

/// Where `first_run_from` finds `pat`, it occurs there, at or after `i`.
pub proof fn lemma_first_run_bound(s: Seq<char>, pat: Seq<char>, i: int)
    ensures
        first_run_from(s, pat, i) matches Some(k) ==> i <= k && k + pat.len() <= s.len() && run_at(
            s,
            pat,
            k,
        ),
    decreases s.len() + 1 - i,
{
    if !(i < 0 || i + pat.len() > s.len()) && !run_at(s, pat, i) {
        lemma_first_run_bound(s, pat, i + 1);
    }
}
/// `s` with every occurrence of `pat` replaced by `rep`, scanning left to right
/// (`str::replace` for a pattern that is not empty).
pub open spec fn replaced(s: Seq<char>, pat: Seq<char>, rep: Seq<char>) -> Seq<char>
    decreases s.len(),
{
    if pat.len() == 0 || s.len() < pat.len() {
        s
    } else if s.subrange(0, pat.len() as int) == pat {
        rep + replaced(s.subrange(pat.len() as int, s.len() as int), pat, rep)
    } else {
        seq![s[0]] + replaced(s.subrange(1, s.len() as int), pat, rep)
    }
}

/// A copy of `s` with every occurrence of `pat` replaced by `rep`.
pub fn replace_all(s: &str, pat: &str, rep: &str) -> (r: String)
    requires
        pat@.len() > 0,
    ensures
        r@ == replaced(s@, pat@, rep@),
{
    let n = s.unicode_len();
    let p = pat.unicode_len();
    let mut out = String::new();
    let mut i: usize = 0;
    assert(s@.subrange(0, n as int) =~= s@);
    assert(Seq::<char>::empty() + replaced(s@, pat@, rep@) =~= replaced(s@, pat@, rep@));
    while i < n
        invariant
            n == s@.len(),
            p == pat@.len(),
            p > 0,
            i <= n,
            out@ + replaced(s@.subrange(i as int, n as int), pat@, rep@) == replaced(
                s@,
                pat@,
                rep@,
            ),
        decreases n - i,
    {
        let ghost t = s@.subrange(i as int, n as int);
        if p <= n - i && run_at_exec(s, pat, i, n, p) {
            assert(t.subrange(0, p as int) =~= s@.subrange(i as int, i + p));
            assert(t.subrange(p as int, t.len() as int) =~= s@.subrange(i + p, n as int));
            let ghost before = out@;
            out.append(rep);
            assert(before + (rep@ + replaced(s@.subrange(i + p, n as int), pat@, rep@)) =~= out@
                + replaced(s@.subrange(i + p, n as int), pat@, rep@));
            i = i + p;
        } else {
            proof {
                if t.len() >= p {
                    assert(t.subrange(0, p as int) =~= s@.subrange(i as int, i + p));
                }
                assert(t.subrange(1, t.len() as int) =~= s@.subrange(i + 1, n as int));
            }
            let c = s.get_char(i);
            let ghost before = out@;
            push_char(&mut out, c);
            assert(t[0] == c);
            assert(before + (seq![c] + replaced(s@.subrange(i + 1, n as int), pat@, rep@)) =~= out@
                + replaced(s@.subrange(i + 1, n as int), pat@, rep@));
            i = i + 1;
        }
    }
    assert(replaced(s@.subrange(n as int, n as int), pat@, rep@) =~= Seq::<char>::empty());
    assert(out@ + Seq::<char>::empty() =~= out@);
    out
}
} // verus!