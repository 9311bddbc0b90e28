use vstd::prelude::*;
use vstd::string::*;

use crate::level0::{entries_view, opt_view, EntryV, SharedOutputEntry};
use crate::module_loading::HiraModule2;
use crate::text::{debug_str, debug_str_text, first_run_from, find_run, str_eq, to_string};

verus! {

/// A key with the lines filed under it.
pub struct MapEntry<T> {
    pub key: String,
    pub lines: Vec<T>,
}

// ---------------------------------------------------------------- first-match update

/// The list with the first binding of `k` changed by `change`, or `(k, fresh)` appended
/// when `k` is not bound.
pub open spec fn upsert<V>(
    s: Seq<(Seq<char>, V)>,
    k: Seq<char>,
    fresh: V,
    change: spec_fn(V) -> V,
) -> Seq<(Seq<char>, V)>
    decreases s.len(),
{
    if s.len() == 0 {
        seq![(k, fresh)]
    } else if s[0].0 == k {
        s.update(0, (k, change(s[0].1)))
    } else {
        seq![s[0]] + upsert(s.subrange(1, s.len() as int), k, fresh, change)
    }
}

proof fn lemma_upsert_at<V>(
    s: Seq<(Seq<char>, V)>,
    k: Seq<char>,
    fresh: V,
    change: spec_fn(V) -> V,
    i: int,
)
    requires
        0 <= i <= s.len(),
        forall|j: int| 0 <= j < i ==> s[j].0 != k,
        i < s.len() ==> s[i].0 == k,
    ensures
        i < s.len() ==> upsert(s, k, fresh, change) == s.update(i, (k, change(s[i].1))),
        i == s.len() ==> upsert(s, k, fresh, change) == s.push((k, fresh)),
    decreases i,
{
    if i > 0 {
        let rest = s.subrange(1, s.len() as int);
        lemma_upsert_at(rest, k, fresh, change, i - 1);
        if i < s.len() {
            assert(seq![s[0]] + rest.update(i - 1, (k, change(s[i].1))) =~= s.update(
                i,
                (k, change(s[i].1)),
            ));
        } else {
            assert(seq![s[0]] + rest.push((k, fresh)) =~= s.push((k, fresh)));
        }
    } else if s.len() == 0 {
        assert(seq![(k, fresh)] =~= s.push((k, fresh)));
    }
}

// ---------------------------------------------------------------- grouping lines by file

/// A requested line: whether it is unique, its text, and what to write after a match.
pub type LineV = (bool, Seq<char>, Option<Seq<char>>);

pub open spec fn line_view(l: (bool, String, Option<String>)) -> LineV {
    (l.0, l.1@, opt_view(l.2))
}

pub open spec fn in_label_view(e: MapEntry<(bool, String, Option<String>)>) -> (
    Seq<char>,
    Seq<LineV>,
) {
    (e.key@, Seq::new(e.lines@.len(), |i: int| line_view(e.lines@[i])))
}

pub open spec fn in_file_view(e: MapEntry<MapEntry<(bool, String, Option<String>)>>) -> (
    Seq<char>,
    Seq<(Seq<char>, Seq<LineV>)>,
) {
    (e.key@, Seq::new(e.lines@.len(), |i: int| in_label_view(e.lines@[i])))
}

pub open spec fn in_files_view(v: Seq<MapEntry<MapEntry<(bool, String, Option<String>)>>>) -> Seq<
    (Seq<char>, Seq<(Seq<char>, Seq<LineV>)>),
> {
    Seq::new(v.len(), |i: int| in_file_view(v[i]))
}

/// Files one more requested line into its file and label.
pub open spec fn group_entry(files: Seq<(Seq<char>, Seq<(Seq<char>, Seq<LineV>)>)>, e: EntryV) -> Seq<
    (Seq<char>, Seq<(Seq<char>, Seq<LineV>)>),
> {
    let lv: LineV = (e.unique, e.line, e.after);
    upsert(
        files,
        e.filename,
        seq![(e.label, seq![lv])],
        |labels: Seq<(Seq<char>, Seq<LineV>)>|
            upsert(labels, e.label, seq![lv], |lines: Seq<LineV>| lines.push(lv)),
    )
}

/// The requested lines grouped by file and then by label; files, labels and lines keep the
/// order in which they first come.
pub open spec fn grouped(data: Seq<EntryV>) -> Seq<(Seq<char>, Seq<(Seq<char>, Seq<LineV>)>)>
    decreases data.len(),
{
    if data.len() == 0 {
        Seq::empty()
    } else {
        group_entry(grouped(data.drop_last()), data.last())
    }
}

fn clone_opt(o: &Option<String>) -> (r: Option<String>)
    ensures
        opt_view(r) == opt_view(*o),
{
    match o {
        Some(a) => Some(a.clone()),
        None => None,
    }
}

fn find_key<T>(v: &Vec<MapEntry<T>>, k: &str) -> (i: usize)
    ensures
        i <= v@.len(),
        i < v@.len() ==> v@[i as int].key@ == k@,
        forall|j: int| 0 <= j < i ==> v@[j].key@ != k@,
{
    let n = v.len();
    let mut i: usize = 0;
    while i < n
        invariant
            n == v@.len(),
            i <= n,
            forall|j: int| 0 <= j < i ==> v@[j].key@ != k@,
        decreases n - i,
    {
        if str_eq(v[i].key.as_str(), k) {
            return i;
        }
        i = i + 1;
    }
    i
}

/// Groups requested lines by file and then by label.
pub fn to_map_entry(data: Vec<SharedOutputEntry>) -> (r: Vec<
    MapEntry<MapEntry<(bool, String, Option<String>)>>,
>)
    ensures
        in_files_view(r@) == grouped(entries_view(data@)),
{
    let mut files: Vec<MapEntry<MapEntry<(bool, String, Option<String>)>>> = Vec::new();
    let n = data.len();
    let mut d: usize = 0;
    assert(in_files_view(files@) =~= grouped(entries_view(data@).subrange(0, 0)));
    while d < n
        invariant
            n == data@.len(),
            d <= n,
            in_files_view(files@) == grouped(entries_view(data@).subrange(0, d as int)),
        decreases n - d,
    {
        let e = &data[d];
        let ghost ev = e@;
        let ghost pre = in_files_view(files@);
        let lv = (e.unique, e.line.clone(), clone_opt(&e.after));
        let ghost lvv = line_view(lv);
        assert(lvv == (ev.unique, ev.line, ev.after));
        proof {
            let upto = entries_view(data@).subrange(0, d + 1);
            assert(upto.drop_last() =~= entries_view(data@).subrange(0, d as int));
            assert(upto.last() == ev);
        }
        let f = find_key(&files, e.filename.as_str());
        let ghost label_change = |lines: Seq<LineV>| lines.push(lvv);
        let ghost file_change = |labels: Seq<(Seq<char>, Seq<LineV>)>|
            upsert(labels, ev.label, seq![lvv], label_change);
        proof {
            lemma_upsert_at(pre, ev.filename, seq![(ev.label, seq![lvv])], file_change, f as int);
        }
        if f < files.len() {
            let mut fe = files.remove(f);
            let ghost fpre = in_file_view(fe);
            let l = find_key(&fe.lines, e.label.as_str());
            proof {
                lemma_upsert_at(fpre.1, ev.label, seq![lvv], label_change, l as int);
            }
            if l < fe.lines.len() {
                let mut le = fe.lines.remove(l);
                let ghost lpre = in_label_view(le);
                le.lines.push(lv);
                assert(in_label_view(le).1 =~= lpre.1.push(lvv));
                fe.lines.insert(l, le);
                assert(in_file_view(fe).1 =~= fpre.1.update(l as int, (ev.label, lpre.1.push(lvv))));
            } else {
                let mut lines = Vec::new();
                lines.push(lv);
                let le = MapEntry { key: e.label.clone(), lines };
                assert(in_label_view(le).1 =~= seq![lvv]);
                fe.lines.push(le);
                assert(in_file_view(fe).1 =~= fpre.1.push((ev.label, seq![lvv])));
            }
            let ghost fv = in_file_view(fe);
            files.insert(f, fe);
            assert(in_files_view(files@) =~= pre.update(f as int, fv));
        } else {
            let mut lines = Vec::new();
            lines.push(lv);
            let le = MapEntry { key: e.label.clone(), lines };
            assert(in_label_view(le).1 =~= seq![lvv]);
            let mut labels = Vec::new();
            labels.push(le);
            let fe = MapEntry { key: e.filename.clone(), lines: labels };
            assert(in_file_view(fe).1 =~= seq![(ev.label, seq![lvv])]);
            let ghost fv = in_file_view(fe);
            files.push(fe);
            assert(in_files_view(files@) =~= pre.push(fv));
        }
        d = d + 1;
    }
    assert(entries_view(data@).subrange(0, n as int) =~= entries_view(data@));
    files
}

// ---------------------------------------------------------------- merging into the files

pub open spec fn out_label_view(e: MapEntry<String>) -> (Seq<char>, Seq<Seq<char>>) {
    (e.key@, Seq::new(e.lines@.len(), |i: int| e.lines@[i]@))
}

pub open spec fn out_file_view(e: MapEntry<MapEntry<String>>) -> (
    Seq<char>,
    Seq<(Seq<char>, Seq<Seq<char>>)>,
) {
    (e.key@, Seq::new(e.lines@.len(), |i: int| out_label_view(e.lines@[i])))
}

pub open spec fn out_files_view(v: Seq<MapEntry<MapEntry<String>>>) -> Seq<
    (Seq<char>, Seq<(Seq<char>, Seq<Seq<char>>)>),
> {
    Seq::new(v.len(), |i: int| out_file_view(v[i]))
}

/// The first of `lines`, from `j` on, in which `pat` occurs.
pub open spec fn first_line_with(lines: Seq<Seq<char>>, pat: Seq<char>, j: int) -> Option<int>
    decreases lines.len() - j,
{
    if j < 0 || j >= lines.len() {
        None
    } else if first_run_from(lines[j], pat, 0) is Some {
        Some(j)
    } else {
        first_line_with(lines, pat, j + 1)
    }
}

/// `s` with `a` put in at place `k`.
pub open spec fn insert_at(s: Seq<char>, k: int, a: Seq<char>) -> Seq<char> {
    s.subrange(0, k) + a + s.subrange(k, s.len() as int)
}

/// The lines under a label after one requested line is written: a unique line is added
/// when it is not there yet; a line with an `after` part puts that part right after the
/// first occurrence of the line's text in the first line holding it, or is added joined to
/// it; any other line is added.
pub open spec fn apply_line(lines: Seq<Seq<char>>, lv: LineV) -> Seq<Seq<char>> {
    if lv.0 {
        if lines.contains(lv.1) {
            lines
        } else {
            lines.push(lv.1)
        }
    } else {
        match lv.2 {
            Some(a) => match first_line_with(lines, lv.1, 0) {
                Some(j) => lines.update(
                    j,
                    insert_at(lines[j], first_run_from(lines[j], lv.1, 0)->Some_0 + lv.1.len(), a),
                ),
                None => lines.push(lv.1 + a),
            },
            None => lines.push(lv.1),
        }
    }
}

/// The lines under a label after requested lines are written in order.
pub open spec fn apply_lines(lines: Seq<Seq<char>>, lvs: Seq<LineV>) -> Seq<Seq<char>>
    decreases lvs.len(),
{
    if lvs.len() == 0 {
        lines
    } else {
        apply_line(apply_lines(lines, lvs.drop_last()), lvs.last())
    }
}

/// The files after the requested lines of one label are written; a label or file met for
/// the first time is added at the end.
pub open spec fn merge_label(
    files: Seq<(Seq<char>, Seq<(Seq<char>, Seq<Seq<char>>)>)>,
    fname: Seq<char>,
    label: Seq<char>,
    lvs: Seq<LineV>,
) -> Seq<(Seq<char>, Seq<(Seq<char>, Seq<Seq<char>>)>)> {
    upsert(
        files,
        fname,
        seq![(label, apply_lines(Seq::empty(), lvs))],
        |labels: Seq<(Seq<char>, Seq<Seq<char>>)>|
            upsert(
                labels,
                label,
                apply_lines(Seq::empty(), lvs),
                |lines: Seq<Seq<char>>| apply_lines(lines, lvs),
            ),
    )
}

/// The files after every label of one requested file is written.
pub open spec fn merge_labels(
    files: Seq<(Seq<char>, Seq<(Seq<char>, Seq<Seq<char>>)>)>,
    fname: Seq<char>,
    labels: Seq<(Seq<char>, Seq<LineV>)>,
) -> Seq<(Seq<char>, Seq<(Seq<char>, Seq<Seq<char>>)>)>
    decreases labels.len(),
{
    if labels.len() == 0 {
        files
    } else {
        merge_label(
            merge_labels(files, fname, labels.drop_last()),
            fname,
            labels.last().0,
            labels.last().1,
        )
    }
}

/// The files after every requested file is written.
pub open spec fn merge_files(
    files: Seq<(Seq<char>, Seq<(Seq<char>, Seq<Seq<char>>)>)>,
    data: Seq<(Seq<char>, Seq<(Seq<char>, Seq<LineV>)>)>,
) -> Seq<(Seq<char>, Seq<(Seq<char>, Seq<Seq<char>>)>)>
    decreases data.len(),
{
    if data.len() == 0 {
        files
    } else {
        merge_labels(merge_files(files, data.drop_last()), data.last().0, data.last().1)
    }
}

/// A file name that is a path: it holds `/` or `\`.
pub open spec fn is_path_name(f: Seq<char>) -> bool {
    f.contains('/') || f.contains('\\')
}

/// The place of the first requested file whose name is a path.
pub open spec fn first_path_name(data: Seq<(Seq<char>, Seq<(Seq<char>, Seq<LineV>)>)>) -> Option<
    int,
> {
    if exists|k: int| 0 <= k < data.len() && is_path_name(data[k].0) {
        Some(
            choose|k: int|
                0 <= k < data.len() && is_path_name(data[k].0) && forall|j: int|
                    0 <= j < k ==> !is_path_name(data[j].0),
        )
    } else {
        None
    }
}

/// The message given when a module asks to write a file outside the shared directory.
pub open spec fn outside_dir_message(module: Seq<char>, fname: Seq<char>) -> Seq<char> {
    "Wasm module '"@ + module
        + "' attempted to output a shared file outside the shared file directory "@
        + debug_str_text(fname)
}

fn has_path_char(s: &str) -> (r: bool)
    ensures
        r == is_path_name(s@),
{
    let n = s.unicode_len();
    let mut i: usize = 0;
    while i < n
        invariant
            n == s@.len(),
            i <= n,
            forall|j: int| 0 <= j < i ==> s@[j] != '/' && s@[j] != '\\',
        decreases n - i,
    {
        let c = s.get_char(i);
        if c == '/' || c == '\\' {
            assert(s@.contains(c));
            return true;
        }
        i = i + 1;
    }
    false
}

fn clone_string_vec(v: &Vec<String>) -> (r: Vec<String>)
    ensures
        Seq::new(r@.len(), |i: int| r@[i]@) == Seq::new(v@.len(), |i: int| v@[i]@),
{
    let mut out: Vec<String> = Vec::new();
    let n = v.len();
    let mut i: usize = 0;
    while i < n
        invariant
            n == v@.len(),
            i <= n,
            out@.len() == i,
            forall|j: int| 0 <= j < i ==> out@[j]@ == v@[j]@,
        decreases n - i,
    {
        out.push(v[i].clone());
        i = i + 1;
    }
    assert(Seq::new(out@.len(), |i: int| out@[i]@) =~= Seq::new(v@.len(), |i: int| v@[i]@));
    out
}

pub open spec fn strs(v: Seq<String>) -> Seq<Seq<char>> {
    Seq::new(v.len(), |i: int| v[i]@)
}

/// Writes one requested line into the lines of a label (see `apply_line`).
#[verifier::loop_isolation(false)]
fn apply_line_exec(lines: &mut Vec<String>, unique: bool, line: &String, after: &Option<String>)
    ensures
        strs(final(lines)@) == apply_line(strs(old(lines)@), (unique, line@, opt_view(*after))),
{
    let ghost ls = strs(lines@);
    assert(ls == strs(old(lines)@));
    let n = lines.len();
    if unique {
        let mut i: usize = 0;
        while i < n
            invariant
                n == lines@.len(),
                ls == strs(lines@),
                i <= n,
                forall|j: int| 0 <= j < i ==> ls[j] != line@,
            decreases n - i,
        {
            if str_eq(lines[i].as_str(), line.as_str()) {
                assert(ls[i as int] == line@);
                assert(ls.contains(line@));
                return;
            }
            i = i + 1;
        }
        lines.push(line.clone());
        assert(strs(lines@) =~= ls.push(line@));
        return;
    }
    match after {
        Some(a) => {
            let mut j: usize = 0;
            while j < n
                invariant
                    n == lines@.len(),
                    ls == strs(lines@),
                    j <= n,
                    first_line_with(ls, line@, 0) == first_line_with(ls, line@, j as int),
                decreases n - j,
            {
                let found = find_run(lines[j].as_str(), line.as_str());
                assert(ls[j as int] == lines@[j as int]@);
                match found {
                    Some(k) => {
                        let cur = lines[j].as_str();
                        let m = cur.unicode_len();
                        let pl = line.as_str().unicode_len();
                        proof {
                            crate::text::lemma_first_run_bound(ls[j as int], line@, 0);
                            assert(first_run_from(ls[j as int], line@, 0) == Some(k as int));
                            assert(first_line_with(ls, line@, j as int) == Some(j as int));
                        }
                        let mut s = to_string(cur.substring_char(0, k + pl));
                        s.append(a.as_str());
                        s.append(cur.substring_char(k + pl, m));
                        lines.set(j, s);
                        assert(strs(lines@) =~= ls.update(
                            j as int,
                            insert_at(ls[j as int], k + pl, a@),
                        ));
                        return;
                    },
                    None => {},
                }
                j = j + 1;
            }
            let mut s = line.clone();
            s.append(a.as_str());
            lines.push(s);
            assert(strs(lines@) =~= ls.push(line@ + a@));
        },
        None => {
            lines.push(line.clone());
            assert(strs(lines@) =~= ls.push(line@));
        },
    }
}

/// Writes requested lines into the lines of a label in order.
fn apply_lines_exec(lines: &mut Vec<String>, lvs: &Vec<(bool, String, Option<String>)>)
    ensures
        strs(final(lines)@) == apply_lines(
            strs(old(lines)@),
            Seq::new(lvs@.len(), |i: int| line_view(lvs@[i])),
        ),
{
    let ghost all = Seq::new(lvs@.len(), |i: int| line_view(lvs@[i]));
    let ghost start = strs(lines@);
    let n = lvs.len();
    let mut i: usize = 0;
    assert(all.subrange(0, 0) =~= Seq::<LineV>::empty());
    while i < n
        invariant
            n == lvs@.len(),
            all == Seq::new(lvs@.len(), |i: int| line_view(lvs@[i])),
            i <= n,
            strs(lines@) == apply_lines(start, all.subrange(0, i as int)),
        decreases n - i,
    {
        let lv = &lvs[i];
        apply_line_exec(lines, lv.0, &lv.1, &lv.2);
        proof {
            let upto = all.subrange(0, i + 1);
            assert(upto.drop_last() =~= all.subrange(0, i as int));
            assert(upto.last() == line_view(*lv));
        }
        i = i + 1;
    }
    assert(all.subrange(0, n as int) =~= all);
}

/// Writes the requested lines of one label of one file into the files.
fn merge_label_exec(
    files: &mut Vec<MapEntry<MapEntry<String>>>,
    fname: &String,
    label_entry: &MapEntry<(bool, String, Option<String>)>,
)
    ensures
        out_files_view(final(files)@) == merge_label(
            out_files_view(old(files)@),
            fname@,
            in_label_view(*label_entry).0,
            in_label_view(*label_entry).1,
        ),
{
    let ghost pre = out_files_view(files@);
    let ghost label = label_entry.key@;
    let ghost lvs = in_label_view(*label_entry).1;
    let ghost lines_change = |lines: Seq<Seq<char>>| apply_lines(lines, lvs);
    let ghost fresh_lines = apply_lines(Seq::empty(), lvs);
    let ghost file_change = |labels: Seq<(Seq<char>, Seq<Seq<char>>)>|
        upsert(labels, label, fresh_lines, lines_change);
    let f = find_key(files, fname.as_str());
    proof {
        lemma_upsert_at(pre, fname@, seq![(label, fresh_lines)], file_change, f as int);
    }
    if f < files.len() {
        let mut fe = files.remove(f);
        let ghost fpre = out_file_view(fe);
        let l = find_key(&fe.lines, label_entry.key.as_str());
        proof {
            lemma_upsert_at(fpre.1, label, fresh_lines, lines_change, l as int);
        }
        if l < fe.lines.len() {
            let mut le = fe.lines.remove(l);
            let ghost lpre = out_label_view(le);
            apply_lines_exec(&mut le.lines, &label_entry.lines);
            assert(strs(le.lines@) == out_label_view(le).1);
            assert(strs(old(files)@[f as int].lines@[l as int].lines@) == lpre.1);
            fe.lines.insert(l, le);
            assert(out_file_view(fe).1 =~= fpre.1.update(l as int, (label, apply_lines(lpre.1, lvs))));
        } else {
            let mut lines: Vec<String> = Vec::new();
            assert(strs(lines@) =~= Seq::<Seq<char>>::empty());
            apply_lines_exec(&mut lines, &label_entry.lines);
            let le = MapEntry { key: label_entry.key.clone(), lines };
            assert(out_label_view(le).1 == strs(le.lines@));
            fe.lines.push(le);
            assert(out_file_view(fe).1 =~= fpre.1.push((label, fresh_lines)));
        }
        let ghost fv = out_file_view(fe);
        files.insert(f, fe);
        assert(out_files_view(files@) =~= pre.update(f as int, fv));
    } else {
        let mut lines: Vec<String> = Vec::new();
        assert(strs(lines@) =~= Seq::<Seq<char>>::empty());
        apply_lines_exec(&mut lines, &label_entry.lines);
        let le = MapEntry { key: label_entry.key.clone(), lines };
        assert(out_label_view(le).1 == strs(le.lines@));
        let mut labels = Vec::new();
        labels.push(le);
        let fe = MapEntry { key: fname.clone(), lines: labels };
        assert(out_file_view(fe).1 =~= seq![(label, fresh_lines)]);
        let ghost fv = out_file_view(fe);
        files.push(fe);
        assert(out_files_view(files@) =~= pre.push(fv));
    }
}

/// Writes the lines that a module asked for into the shared files, file after file. A file
/// whose name is a path is refused: the files met before it stay written.
#[verifier::loop_isolation(false)]
fn merge_into_files(
    files: &mut Vec<MapEntry<MapEntry<String>>>,
    wasm_module_name: &str,
    data: Vec<MapEntry<MapEntry<(bool, String, Option<String>)>>>,
) -> (r: Result<(), String>)
    ensures
        match first_path_name(in_files_view(data@)) {
            Some(k) => r matches Err(msg) && msg@ == outside_dir_message(
                wasm_module_name@,
                in_files_view(data@)[k].0,
            ) && out_files_view(final(files)@) == merge_files(
                out_files_view(old(files)@),
                in_files_view(data@).subrange(0, k),
            ),
            None => r is Ok && out_files_view(final(files)@) == merge_files(
                out_files_view(old(files)@),
                in_files_view(data@),
            ),
        },
{
    let ghost start = out_files_view(files@);
    let ghost dv = in_files_view(data@);
    let n = data.len();
    let mut i: usize = 0;
    assert(dv.subrange(0, 0) =~= Seq::<(Seq<char>, Seq<(Seq<char>, Seq<LineV>)>)>::empty());
    while i < n
        invariant
            n == data@.len(),
            dv == in_files_view(data@),
            i <= n,
            forall|j: int| 0 <= j < i ==> !is_path_name(dv[j].0),
            out_files_view(files@) == merge_files(start, dv.subrange(0, i as int)),
        decreases n - i,
    {
        let entry = &data[i];
        if has_path_char(entry.key.as_str()) {
            let mut msg = to_string("Wasm module '");
            msg.append(wasm_module_name);
            msg.append("' attempted to output a shared file outside the shared file directory ");
            let shown = debug_str(entry.key.as_str());
            msg.append(shown.as_str());
            proof {
                assert(is_path_name(dv[i as int].0));
                assert(exists|k: int| 0 <= k < dv.len() && is_path_name(dv[k].0));
                let k = choose|k: int|
                    0 <= k < dv.len() && is_path_name(dv[k].0) && forall|j: int|
                        0 <= j < k ==> !is_path_name(dv[j].0);
                assert(k == i) by {
                    if k < i {
                    } else if k > i {
                        assert(!is_path_name(dv[i as int].0));
                    }
                }
                assert(first_path_name(dv) == Some(i as int));
                assert(msg@ == outside_dir_message(wasm_module_name@, dv[i as int].0));
            }
            return Err(msg);
        }
        let ghost fv = in_file_view(*entry);
        let m = entry.lines.len();
        let mut l: usize = 0;
        let ghost before = out_files_view(files@);
        assert(fv.1.subrange(0, 0) =~= Seq::<(Seq<char>, Seq<LineV>)>::empty());
        while l < m
            invariant
                m == entry.lines@.len(),
                fv == in_file_view(*entry),
                l <= m,
                out_files_view(files@) == merge_labels(before, fv.0, fv.1.subrange(0, l as int)),
            decreases m - l,
        {
            merge_label_exec(files, &entry.key, &entry.lines[l]);
            proof {
                let upto = fv.1.subrange(0, l + 1);
                assert(upto.drop_last() =~= fv.1.subrange(0, l as int));
                assert(upto.last() == in_label_view(entry.lines@[l as int]));
            }
            l = l + 1;
        }
        proof {
            assert(fv.1.subrange(0, m as int) =~= fv.1);
            let upto = dv.subrange(0, i + 1);
            assert(upto.drop_last() =~= dv.subrange(0, i as int));
            assert(upto.last() == fv);
        }
        i = i + 1;
    }
    assert(dv.subrange(0, n as int) =~= dv);
    proof {
        if exists|k: int| 0 <= k < dv.len() && is_path_name(dv[k].0) {
            let k = choose|k: int| 0 <= k < dv.len() && is_path_name(dv[k].0);
            assert(!is_path_name(dv[k].0));
        }
    }
    Ok(())
}

// ---------------------------------------------------------------- writing a file out

/// Whether `a` comes before `b` or equals it, character by character (the order of `str`).
pub open spec fn key_le(a: Seq<char>, b: Seq<char>) -> bool
    decreases a.len(),
{
    if a.len() == 0 {
        true
    } else if b.len() == 0 {
        false
    } else if a[0] != b[0] {
        a[0] < b[0]
    } else {
        key_le(a.subrange(1, a.len() as int), b.subrange(1, b.len() as int))
    }
}

/// `x` put into `sorted` after every entry whose key comes before it or equals it.
pub open spec fn insert_sorted<V>(sorted: Seq<(Seq<char>, V)>, x: (Seq<char>, V)) -> Seq<
    (Seq<char>, V),
>
    decreases sorted.len(),
{
    if sorted.len() == 0 {
        seq![x]
    } else if key_le(sorted.last().0, x.0) {
        sorted.push(x)
    } else {
        insert_sorted(sorted.drop_last(), x).push(sorted.last())
    }
}

/// The entries sorted by key; entries with equal keys keep their order.
pub open spec fn sort_by_key<V>(s: Seq<(Seq<char>, V)>) -> Seq<(Seq<char>, V)>
    decreases s.len(),
{
    if s.len() == 0 {
        s
    } else {
        insert_sorted(sort_by_key(s.drop_last()), s.last())
    }
}

/// Compares two strings character by character.
pub(crate) fn str_le(a: &str, b: &str) -> (r: bool)
    ensures
        r == key_le(a@, b@),
{
    let n = a.unicode_len();
    let m = b.unicode_len();
    let mut i: usize = 0;
    assert(a@.subrange(0, n as int) =~= a@);
    assert(b@.subrange(0, m as int) =~= b@);
    while i < n && i < m && a.get_char(i) == b.get_char(i)
        invariant
            n == a@.len(),
            m == b@.len(),
            i <= n,
            i <= m,
            key_le(a@, b@) == key_le(a@.subrange(i as int, n as int), b@.subrange(i as int, m as int)),
        decreases n - i,
    {
        proof {
            let x = a@.subrange(i as int, n as int);
            let y = b@.subrange(i as int, m as int);
            assert(x.subrange(1, x.len() as int) =~= a@.subrange(i + 1, n as int));
            assert(y.subrange(1, y.len() as int) =~= b@.subrange(i + 1, m as int));
        }
        i = i + 1;
    }
    if i == n {
        true
    } else if i == m {
        false
    } else {
        proof {
            let x = a@.subrange(i as int, n as int);
            let y = b@.subrange(i as int, m as int);
            assert(x[0] == a@[i as int] && y[0] == b@[i as int]);
        }
        a.get_char(i) < b.get_char(i)
    }
}

pub open spec fn labels_view(v: Seq<MapEntry<String>>) -> Seq<(Seq<char>, Seq<Seq<char>>)> {
    Seq::new(v.len(), |i: int| out_label_view(v[i]))
}

/// Puts `x` into the sorted list (see `insert_sorted`).
fn insert_label_sorted(out: &mut Vec<MapEntry<String>>, x: MapEntry<String>)
    ensures
        labels_view(final(out)@) == insert_sorted(labels_view(old(out)@), out_label_view(x)),
{
    let ghost ov = labels_view(out@);
    let ghost xv = out_label_view(x);
    let mut j = out.len();
    assert(ov.subrange(0, j as int) =~= ov);
    assert(insert_sorted(ov, xv) + ov.subrange(j as int, ov.len() as int) =~= insert_sorted(ov, xv));
    while j > 0 && !str_le(out[j - 1].key.as_str(), x.key.as_str())
        invariant
            j <= out@.len(),
            ov == labels_view(out@),
            xv == out_label_view(x),
            insert_sorted(ov, xv) == insert_sorted(ov.subrange(0, j as int), xv) + ov.subrange(
                j as int,
                ov.len() as int,
            ),
        decreases j,
    {
        proof {
            let pre = ov.subrange(0, j as int);
            assert(pre.drop_last() =~= ov.subrange(0, j - 1));
            assert(pre.last() == ov[j - 1]);
            assert(insert_sorted(pre, xv) == insert_sorted(ov.subrange(0, j - 1), xv).push(
                ov[j - 1],
            ));
            assert(insert_sorted(ov.subrange(0, j - 1), xv).push(ov[j - 1]) + ov.subrange(
                j as int,
                ov.len() as int,
            ) =~= insert_sorted(ov.subrange(0, j - 1), xv) + ov.subrange(j - 1, ov.len() as int));
        }
        j = j - 1;
    }
    proof {
        let pre = ov.subrange(0, j as int);
        if j > 0 {
            assert(pre.last() == ov[j - 1]);
            assert(insert_sorted(pre, xv) == pre.push(xv));
        } else {
            assert(insert_sorted(pre, xv) == seq![xv]);
        }
        assert(insert_sorted(pre, xv) + ov.subrange(j as int, ov.len() as int) =~= ov.insert(
            j as int,
            xv,
        ));
    }
    out.insert(j, x);
    assert(labels_view(out@) =~= ov.insert(j as int, xv));
}

/// Sorts labels by key; labels with equal keys keep their order.
pub fn sort_labels(labels: &mut Vec<MapEntry<String>>)
    ensures
        labels_view(final(labels)@) == sort_by_key(labels_view(old(labels)@)),
{
    let ghost orig = labels_view(labels@);
    let mut src: Vec<MapEntry<String>> = Vec::new();
    std::mem::swap(&mut src, labels);
    let n = src.len();
    let mut out: Vec<MapEntry<String>> = Vec::new();
    let mut k: usize = 0;
    assert(labels_view(out@) =~= sort_by_key(orig.subrange(0, 0)));
    assert(labels_view(src@) =~= orig.subrange(0, n as int));
    while k < n
        invariant
            n == orig.len(),
            k <= n,
            src@.len() == n - k,
            labels_view(src@) == orig.subrange(k as int, n as int),
            labels_view(out@) == sort_by_key(orig.subrange(0, k as int)),
        decreases n - k,
    {
        let ghost sv = labels_view(src@);
        assert(sv[0] == orig[k as int]);
        let x = src.remove(0);
        assert(labels_view(src@) =~= sv.subrange(1, sv.len() as int));
        assert(labels_view(src@) =~= orig.subrange(k + 1, n as int));
        insert_label_sorted(&mut out, x);
        proof {
            let upto = orig.subrange(0, k + 1);
            assert(upto.drop_last() =~= orig.subrange(0, k as int));
            assert(upto.last() == orig[k as int]);
        }
        k = k + 1;
    }
    assert(orig.subrange(0, n as int) =~= orig);
    *labels = out;
}

/// The text of one label: the label, then each line, each on a line of its own.
pub open spec fn label_text(label: (Seq<char>, Seq<Seq<char>>)) -> Seq<char> {
    label.0 + "\n"@ + lines_text(label.1)
}

/// Each line followed by a line break.
pub open spec fn lines_text(lines: Seq<Seq<char>>) -> Seq<char>
    decreases lines.len(),
{
    if lines.len() == 0 {
        Seq::empty()
    } else {
        lines_text(lines.drop_last()) + lines.last() + "\n"@
    }
}

/// The text of the labels, one after another.
pub open spec fn labels_text(labels: Seq<(Seq<char>, Seq<Seq<char>>)>) -> Seq<char>
    decreases labels.len(),
{
    if labels.len() == 0 {
        Seq::empty()
    } else {
        labels_text(labels.drop_last()) + label_text(labels.last())
    }
}

fn push_lines(out: &mut String, lines: &Vec<String>)
    ensures
        final(out)@ == old(out)@ + lines_text(strs(lines@)),
{
    let n = lines.len();
    let mut i: usize = 0;
    let ghost all = strs(lines@);
    assert(all.subrange(0, 0) =~= Seq::<Seq<char>>::empty());
    assert(old(out)@ + lines_text(Seq::<Seq<char>>::empty()) =~= old(out)@);
    while i < n
        invariant
            n == lines@.len(),
            all == strs(lines@),
            i <= n,
            out@ == old(out)@ + lines_text(all.subrange(0, i as int)),
        decreases n - i,
    {
        out.append(lines[i].as_str());
        out.append("\n");
        proof {
            let upto = all.subrange(0, i + 1);
            assert(upto.drop_last() =~= all.subrange(0, i as int));
            assert(upto.last() == lines@[i as int]@);
            assert(out@ =~= old(out)@ + lines_text(upto));
        }
        i = i + 1;
    }
    assert(all.subrange(0, n as int) =~= all);
}

/// Sorts the labels of a file by key and gives the file's text: each label on a line of
/// its own, followed by its lines.
fn render_file(file_entry: &mut MapEntry<MapEntry<String>>) -> (r: String)
    ensures
        final(file_entry).key@ == old(file_entry).key@,
        labels_view(final(file_entry).lines@) == sort_by_key(labels_view(old(file_entry).lines@)),
        r@ == labels_text(sort_by_key(labels_view(old(file_entry).lines@))),
{
    sort_labels(&mut file_entry.lines);
    let ghost all = labels_view(file_entry.lines@);
    let mut out = String::new();
    let n = file_entry.lines.len();
    let mut i: usize = 0;
    assert(all.subrange(0, 0) =~= Seq::<(Seq<char>, Seq<Seq<char>>)>::empty());
    while i < n
        invariant
            n == file_entry.lines@.len(),
            all == labels_view(file_entry.lines@),
            i <= n,
            out@ == labels_text(all.subrange(0, i as int)),
        decreases n - i,
    {
        let ghost before = out@;
        out.append(file_entry.lines[i].key.as_str());
        out.append("\n");
        push_lines(&mut out, &file_entry.lines[i].lines);
        proof {
            let upto = all.subrange(0, i + 1);
            assert(upto.drop_last() =~= all.subrange(0, i as int));
            assert(upto.last() == all[i as int]);
            assert(strs(file_entry.lines@[i as int].lines@) == all[i as int].1);
            assert(out@ =~= labels_text(upto));
        }
        i = i + 1;
    }
    assert(all.subrange(0, n as int) =~= all);
    out
}

/// The text of the shared file `name`, with its labels sorted, if any module wrote to it.
fn file_text_of(files: &mut Vec<MapEntry<MapEntry<String>>>, name: &str) -> (r: Option<
    String,
>)
    ensures
        match first_key(out_files_view(old(files)@), name@) {
            Some(i) => r matches Some(t) && t@ == labels_text(
                sort_by_key(out_files_view(old(files)@)[i].1),
            ) && out_files_view(final(files)@) == out_files_view(old(files)@).update(
                i,
                (name@, sort_by_key(out_files_view(old(files)@)[i].1)),
            ),
            None => r is None && out_files_view(final(files)@) == out_files_view(old(files)@),
        },
{
    let ghost pre = out_files_view(files@);
    let i = find_key(files, name);
    proof {
        lemma_first_key_at(pre, name@, i as int);
    }
    if i == files.len() {
        return None;
    }
    let mut fe = files.remove(i);
    let t = render_file(&mut fe);
    let ghost fv = out_file_view(fe);
    files.insert(i, fe);
    assert(out_files_view(files@) =~= pre.update(i as int, fv));
    Some(t)
}

/// The place of the first entry with key `k`.
pub open spec fn first_key<V>(s: Seq<(Seq<char>, V)>, k: Seq<char>) -> Option<int>
    decreases s.len(),
{
    if s.len() == 0 {
        None
    } else if s[0].0 == k {
        Some(0)
    } else {
        match first_key(s.subrange(1, s.len() as int), k) {
            Some(j) => Some(j + 1),
            None => None,
        }
    }
}

proof fn lemma_first_key_at<V>(s: Seq<(Seq<char>, V)>, k: Seq<char>, i: int)
    requires
        0 <= i <= s.len(),
        forall|j: int| 0 <= j < i ==> s[j].0 != k,
        i < s.len() ==> s[i].0 == k,
    ensures
        i < s.len() ==> first_key(s, k) == Some(i),
        i == s.len() ==> first_key(s, k) is None,
    decreases i,
{
    if i > 0 {
        lemma_first_key_at(s.subrange(1, s.len() as int), k, i - 1);
    }
}

// ---------------------------------------------------------------- laws

/// Writing a unique line a second time changes nothing.
pub proof fn law_unique_line_idempotent(lines: Seq<Seq<char>>, line: Seq<char>)
    ensures
        apply_line(apply_line(lines, (true, line, None)), (true, line, None)) == apply_line(
            lines,
            (true, line, None),
        ),
{
    if !lines.contains(line) {
        assert(lines.push(line)[lines.len() as int] == line);
    }
}

/// A unique line written into lines that do not hold it yet comes out exactly once.
pub proof fn law_unique_line_once(lines: Seq<Seq<char>>, line: Seq<char>)
    requires
        !lines.contains(line),
    ensures
        apply_line(lines, (true, line, None)).to_multiset().count(line) == 1,
{
    broadcast use vstd::seq_lib::group_to_multiset_ensures;
    broadcast use vstd::multiset::group_multiset_axioms;

    assert(lines.to_multiset().count(line) == 0);
}

proof fn lemma_key_le_total(a: Seq<char>, b: Seq<char>)
    ensures
        key_le(a, b) || key_le(b, a),
    decreases a.len(),
{
    if a.len() > 0 && b.len() > 0 && a[0] == b[0] {
        lemma_key_le_total(a.subrange(1, a.len() as int), b.subrange(1, b.len() as int));
    }
}

proof fn lemma_key_le_trans(a: Seq<char>, b: Seq<char>, c: Seq<char>)
    requires
        key_le(a, b),
        key_le(b, c),
    ensures
        key_le(a, c),
    decreases a.len(),
{
    if a.len() > 0 && b.len() > 0 && c.len() > 0 && a[0] == b[0] && b[0] == c[0] {
        lemma_key_le_trans(
            a.subrange(1, a.len() as int),
            b.subrange(1, b.len() as int),
            c.subrange(1, c.len() as int),
        );
    }
}

pub open spec fn sorted_by_key<V>(s: Seq<(Seq<char>, V)>) -> bool {
    forall|i: int, j: int| 0 <= i < j < s.len() ==> key_le(s[i].0, s[j].0)
}

#[verifier::spinoff_prover]
proof fn lemma_insert_sorted<V>(s: Seq<(Seq<char>, V)>, x: (Seq<char>, V))
    requires
        sorted_by_key(s),
    ensures
        sorted_by_key(insert_sorted(s, x)),
        insert_sorted(s, x).len() == s.len() + 1,
        forall|i: int|
            0 <= i < insert_sorted(s, x).len() ==> insert_sorted(s, x)[i] == x || s.contains(
                #[trigger] insert_sorted(s, x)[i],
            ),
    decreases s.len(),
{
    if s.len() > 0 {
        let t = s.drop_last();
        if key_le(s.last().0, x.0) {
            let r = s.push(x);
            assert forall|i: int, j: int| 0 <= i < j < r.len() implies key_le(r[i].0, r[j].0) by {
                if j == s.len() {
                    if i < s.len() - 1 {
                        lemma_key_le_trans(s[i].0, s.last().0, x.0);
                    }
                }
            }
            assert forall|i: int| 0 <= i < r.len() implies r[i] == x || s.contains(#[trigger] r[i]) by {
                if i < s.len() {
                    assert(s[i] == r[i]);
                }
            }
        } else {
            assert forall|i: int, j: int| 0 <= i < j < t.len() implies key_le(t[i].0, t[j].0) by {
                assert(t[i] == s[i]);
                assert(t[j] == s[j]);
            }
            assert(sorted_by_key(t));
            lemma_insert_sorted(t, x);
            let u = insert_sorted(t, x);
            let r = u.push(s.last());
            lemma_key_le_total(s.last().0, x.0);
            assert forall|i: int| 0 <= i < u.len() implies key_le(u[i].0, s.last().0) by {
                if u[i] == x {
                } else {
                    assert(t.contains(u[i]));
                    let k = choose|k: int| 0 <= k < t.len() && t[k] == u[i];
                    assert(s[k] == t[k]);
                }
            }
            assert forall|i: int, j: int| 0 <= i < j < r.len() implies key_le(r[i].0, r[j].0) by {
                if j == u.len() {
                    assert(key_le(u[i].0, s.last().0));
                }
            }
            assert forall|i: int| 0 <= i < r.len() implies r[i] == x || s.contains(#[trigger] r[i]) by {
                if i < u.len() {
                    if u[i] != x {
                        assert(t.contains(u[i]));
                        let k = choose|k: int| 0 <= k < t.len() && t[k] == u[i];
                        assert(s[k] == t[k]);
                    }
                } else {
                    assert(s[s.len() - 1] == r[i]);
                }
            }
        }
    }
}

/// Sorting puts the labels in order of their keys.
pub proof fn law_sorted_labels_in_order<V>(s: Seq<(Seq<char>, V)>)
    ensures
        sorted_by_key(sort_by_key(s)),
        sort_by_key(s).len() == s.len(),
    decreases s.len(),
{
    if s.len() > 0 {
        law_sorted_labels_in_order(s.drop_last());
        lemma_insert_sorted(sort_by_key(s.drop_last()), s.last());
    }
}

// ---------------------------------------------------------------- the configuration

pub const HIRA_DIR_NAME: &'static str = "hira";
pub const HIRA_WASM_DIR_NAME: &'static str = "wasm_out";
pub const HIRA_GEN_DIR_NAME: &'static str = "generated";
pub const HIRA_MODULES_DIR_NAME: &'static str = "modules";

/// What the macro keeps from one invocation to the next: its directories, whether files are
/// written, the modules met so far and the shared files.
pub struct HiraConfig {
    pub cargo_directory: String,
    pub hira_directory: String,
    pub modules_directory: String,
    pub wasm_directory: String,
    pub gen_directory: String,
    /// where the source of modules is cached, so that a module of another crate can be
    /// found again
    pub module_cache_directory: String,
    pub should_do_file_ops: bool,
    pub known_cargo_dependencies: Vec<String>,
    pub shared_file_data: Vec<MapEntry<MapEntry<String>>>,
    pub hira_base_code: String,
    pub modules2: Vec<HiraModule2>,
}

impl Default for HiraConfig {
    fn default() -> (r: HiraConfig)
        ensures
            r.cargo_directory@ == Seq::<char>::empty(),
            r.hira_directory@ == Seq::<char>::empty(),
            r.modules_directory@ == Seq::<char>::empty(),
            r.wasm_directory@ == Seq::<char>::empty(),
            r.gen_directory@ == Seq::<char>::empty(),
            r.module_cache_directory@ == Seq::<char>::empty(),
            !r.should_do_file_ops,
            r.known_cargo_dependencies@.len() == 0,
            r.shared_file_data@.len() == 0,
            r.hira_base_code@ == Seq::<char>::empty(),
            r.modules2@.len() == 0,
    {
        HiraConfig {
            cargo_directory: String::new(),
            hira_directory: String::new(),
            modules_directory: String::new(),
            wasm_directory: String::new(),
            gen_directory: String::new(),
            module_cache_directory: String::new(),
            should_do_file_ops: false,
            known_cargo_dependencies: Vec::new(),
            shared_file_data: Vec::new(),
            hira_base_code: String::new(),
            modules2: Vec::new(),
        }
    }
}

/// The place of the first module named `name`.
pub open spec fn first_module(mods: Seq<HiraModule2>, name: Seq<char>) -> Option<int> {
    if exists|i: int| 0 <= i < mods.len() && mods[i].name@ == name {
        Some(
            choose|i: int|
                0 <= i < mods.len() && mods[i].name@ == name && forall|j: int|
                    0 <= j < i ==> mods[j].name@ != name,
        )
    } else {
        None
    }
}

/// Whether files are written: when `RUST_BACKTRACE` is `full` (a real build rather than an
/// editor's check), unless `CARGO_WASMTYPEGEN_FILEOPS` says `false`/`0` or `true`/`1`.
pub open spec fn file_ops_wanted(backtrace: Option<Seq<char>>, fileops: Option<Seq<char>>) -> bool {
    match fileops {
        Some(v) => if v == "false"@ || v == "0"@ {
            false
        } else if v == "true"@ || v == "1"@ {
            true
        } else {
            backtrace == Some("full"@)
        },
        None => backtrace == Some("full"@),
    }
}

pub open spec fn opt_str(o: Option<&str>) -> Option<Seq<char>> {
    match o {
        Some(s) => Some(s@),
        None => None,
    }
}

impl HiraConfig {
    /// The module named `name`, if it was met.
    pub fn get_mod2(&self, name: &str) -> (r: Option<&HiraModule2>)
        ensures
            match first_module(self.modules2@, name@) {
                Some(i) => r == Some(&self.modules2@[i]),
                None => r is None,
            },
    {
        let n = self.modules2.len();
        let mut i: usize = 0;
        while i < n
            invariant
                n == self.modules2@.len(),
                i <= n,
                forall|j: int| 0 <= j < i ==> self.modules2@[j].name@ != name@,
            decreases n - i,
        {
            if str_eq(self.modules2[i].name.as_str(), name) {
                proof {
                    let k = choose|k: int|
                        0 <= k < self.modules2@.len() && self.modules2@[k].name@ == name@ && forall|
                            j: int,
                        | 0 <= j < k ==> self.modules2@[j].name@ != name@;
                    assert(k == i) by {
                        if k > i {
                            assert(self.modules2@[i as int].name@ != name@);
                        }
                    }
                }
                return Some(&self.modules2[i]);
            }
            i = i + 1;
        }
        None
    }

    /// Decides whether files are written, from the values of `RUST_BACKTRACE` and
    /// `CARGO_WASMTYPEGEN_FILEOPS` (see `file_ops_wanted`).
    pub fn set_should_do_file_ops(&mut self, rust_backtrace: Option<&str>, fileops: Option<&str>)
        ensures
            final(self).should_do_file_ops == file_ops_wanted(
                opt_str(rust_backtrace),
                opt_str(fileops),
            ),
    {
        let mut should_do = false;
        if let Some(env) = rust_backtrace {
            if str_eq(env, "full") {
                should_do = true;
            }
        }
        if let Some(env) = fileops {
            if str_eq(env, "false") || str_eq(env, "0") {
                should_do = false;
            } else if str_eq(env, "true") || str_eq(env, "1") {
                should_do = true;
            }
        }
        self.should_do_file_ops = should_do;
    }

    /// Sets the directories from the crate's directory and the cargo home, each `.` when
    /// unknown.
    pub fn set_directories(&mut self, manifest_dir: Option<&str>, cargo_home: Option<&str>)
        ensures
            final(self).cargo_directory@ == (match manifest_dir {
                Some(d) => d@,
                None => "."@,
            }),
            final(self).hira_directory@ == final(self).cargo_directory@ + "/"@ + "hira"@,
            final(self).modules_directory@ == final(self).hira_directory@ + "/"@ + "modules"@,
            final(self).wasm_directory@ == final(self).hira_directory@ + "/"@ + "wasm_out"@,
            final(self).gen_directory@ == final(self).hira_directory@ + "/"@ + "generated"@,
            final(self).module_cache_directory@ == (match cargo_home {
                Some(d) => d@,
                None => "."@,
            }) + "/"@ + "hira"@ + "/cached_modules"@,
            final(self).shared_file_data@ == old(self).shared_file_data@,
            final(self).modules2@ == old(self).modules2@,
    {
        let base_dir = match manifest_dir {
            Some(d) => to_string(d),
            None => to_string("."),
        };
        let target_dir = match cargo_home {
            Some(d) => to_string(d),
            None => to_string("."),
        };
        self.hira_directory = crate::text::concat3(base_dir.as_str(), "/", HIRA_DIR_NAME);
        self.modules_directory = crate::text::concat3(
            self.hira_directory.as_str(),
            "/",
            HIRA_MODULES_DIR_NAME,
        );
        self.wasm_directory = crate::text::concat3(self.hira_directory.as_str(), "/", HIRA_WASM_DIR_NAME);
        self.gen_directory = crate::text::concat3(self.hira_directory.as_str(), "/", HIRA_GEN_DIR_NAME);
        let mut cache = crate::text::concat3(target_dir.as_str(), "/", HIRA_DIR_NAME);
        cache.append("/cached_modules");
        self.module_cache_directory = cache;
        self.cargo_directory = base_dir;
    }

    /// Writes the lines that a module asked for into the shared files (see
    /// `merge_files`); a file whose name is a path is refused.
    pub fn merge_shared_files(
        &mut self,
        wasm_module_name: &str,
        data: Vec<MapEntry<MapEntry<(bool, String, Option<String>)>>>,
    ) -> (r: Result<(), String>)
        ensures
            match first_path_name(in_files_view(data@)) {
                Some(k) => r matches Err(msg) && msg@ == outside_dir_message(
                    wasm_module_name@,
                    in_files_view(data@)[k].0,
                ) && out_files_view(final(self).shared_file_data@) == merge_files(
                    out_files_view(old(self).shared_file_data@),
                    in_files_view(data@).subrange(0, k),
                ),
                None => r is Ok && out_files_view(final(self).shared_file_data@) == merge_files(
                    out_files_view(old(self).shared_file_data@),
                    in_files_view(data@),
                ),
            },
            same_but_shared_files(*final(self), *old(self)),
    {
        merge_into_files(&mut self.shared_file_data, wasm_module_name, data)
    }

    /// Sorts the labels of a file by key and gives the file's text: each label on a line of
    /// its own, followed by its lines, each line ended by a line break.
    pub fn iterate_map_entry(file_entry: &mut MapEntry<MapEntry<String>>) -> (r: String)
        ensures
            final(file_entry).key@ == old(file_entry).key@,
            labels_view(final(file_entry).lines@) == sort_by_key(labels_view(old(file_entry).lines@)),
            r@ == labels_text(sort_by_key(labels_view(old(file_entry).lines@))),
    {
        render_file(file_entry)
    }

    /// The text of the shared file `name`, with its labels sorted, if any module wrote to it.
    pub fn get_shared_file_data(&mut self, name: &str) -> (r: Option<String>)
        ensures
            match first_key(out_files_view(old(self).shared_file_data@), name@) {
                Some(i) => r matches Some(t) && t@ == labels_text(
                    sort_by_key(out_files_view(old(self).shared_file_data@)[i].1),
                ),
                None => r is None,
            },
    {
        file_text_of(&mut self.shared_file_data, name)
    }

    /// Merges a module's lines into the shared files, then, when files are written, gives
    /// each shared file's path (in the generated directory) and text, with labels sorted.
    pub fn output_shared_files(
        &mut self,
        wasm_module_name: &str,
        data: Vec<MapEntry<MapEntry<(bool, String, Option<String>)>>>,
    ) -> (r: Result<Vec<(String, String)>, String>)
        ensures
            match first_path_name(in_files_view(data@)) {
                Some(k) => r matches Err(msg) && msg@ == outside_dir_message(
                    wasm_module_name@,
                    in_files_view(data@)[k].0,
                ),
                None => r matches Ok(out) && string_pairs(out@) == (if old(
                    self,
                ).should_do_file_ops {
                    written_files(
                        old(self).gen_directory@,
                        merge_files(out_files_view(old(self).shared_file_data@), in_files_view(data@)),
                    )
                } else {
                    Seq::empty()
                }),
            },
            ({
                let merged = merge_files(out_files_view(old(self).shared_file_data@), in_files_view(data@));
                match first_path_name(in_files_view(data@)) {
                    Some(k) => out_files_view(final(self).shared_file_data@) == merge_files(
                        out_files_view(old(self).shared_file_data@),
                        in_files_view(data@).subrange(0, k),
                    ),
                    None => out_files_view(final(self).shared_file_data@) == if old(self).should_do_file_ops {
                        sorted_files(merged)
                    } else {
                        merged
                    },
                }
            }),
            same_but_shared_files(*final(self), *old(self)),
    {
        self.merge_shared_files(wasm_module_name, data)?;
        let mut out: Vec<(String, String)> = Vec::new();
        if !self.should_do_file_ops {
            assert(string_pairs(out@) =~= Seq::<(Seq<char>, Seq<char>)>::empty());
            return Ok(out);
        }
        let ghost merged = out_files_view(self.shared_file_data@);
        let ghost gen = self.gen_directory@;
        let ghost start = *self;
        let n = self.shared_file_data.len();
        let mut i: usize = 0;
        while i < n
            invariant
                n == self.shared_file_data@.len(),
                gen == self.gen_directory@,
                merged.len() == n,
                i <= n,
                same_but_shared_files(*self, start),
                forall|j: int|
                    0 <= j < i ==> #[trigger] out_files_view(self.shared_file_data@)[j] == (
                        merged[j].0,
                        sort_by_key(merged[j].1),
                    ),
                forall|j: int|
                    i <= j < n ==> #[trigger] out_files_view(self.shared_file_data@)[j] == merged[j],
                string_pairs(out@) == written_files(gen, merged).subrange(0, i as int),
            decreases n - i,
        {
            let ghost before = self.shared_file_data@;
            assert(out_files_view(before)[i as int] == merged[i as int]);
            let mut fe = self.shared_file_data.remove(i);
            let ghost fv = out_file_view(fe);
            assert(fv == merged[i as int]);
            let path = crate::text::concat3(self.gen_directory.as_str(), "/", fe.key.as_str());
            assert(labels_view(fe.lines@) =~= fv.1);
            let text = render_file(&mut fe);
            assert(text@ == labels_text(sort_by_key(merged[i as int].1)));
            assert(path@ == gen + "/"@ + merged[i as int].0);
            self.shared_file_data.insert(i, fe);
            let ghost po = out@;
            let ghost pair = (path@, text@);
            out.push((path, text));
            assert(string_pairs(out@) =~= string_pairs(po).push(pair));
            assert(written_files(gen, merged).subrange(0, i + 1) =~= written_files(
                gen,
                merged,
            ).subrange(0, i as int).push(written_files(gen, merged)[i as int]));
            proof {
                assert forall|j: int| i + 1 <= j < n implies #[trigger] out_files_view(
                    self.shared_file_data@,
                )[j] == merged[j] by {
                    assert(self.shared_file_data@[j] == before[j]);
                    assert(out_files_view(before)[j] == merged[j]);
                }
                assert forall|j: int| 0 <= j < i + 1 implies #[trigger] out_files_view(
                    self.shared_file_data@,
                )[j] == (merged[j].0, sort_by_key(merged[j].1)) by {
                    if j < i {
                        assert(self.shared_file_data@[j] == before[j]);
                        assert(out_files_view(before)[j] == (merged[j].0, sort_by_key(merged[j].1)));
                    } else {
                        assert(self.shared_file_data@[j] == fe);
                        assert(out_files_view(self.shared_file_data@)[j] == out_file_view(fe));
                        assert(out_file_view(fe).1 =~= labels_view(fe.lines@));
                    }
                }
                assert(string_pairs(out@) =~= written_files(gen, merged).subrange(0, i + 1));
            }
            i = i + 1;
        }
        assert(written_files(gen, merged).subrange(0, n as int) =~= written_files(gen, merged));
        assert(out_files_view(self.shared_file_data@) =~= sorted_files(merged));
        Ok(out)
    }
}

/// Each file with its labels sorted by key.
pub open spec fn sorted_files(files: Seq<(Seq<char>, Seq<(Seq<char>, Seq<Seq<char>>)>)>) -> Seq<
    (Seq<char>, Seq<(Seq<char>, Seq<Seq<char>>)>),
> {
    Seq::new(files.len(), |i: int| (files[i].0, sort_by_key(files[i].1)))
}

/// Everything but the shared files is as in `b`.
pub open spec fn same_but_shared_files(a: HiraConfig, b: HiraConfig) -> bool {
    &&& a.cargo_directory == b.cargo_directory
    &&& a.hira_directory == b.hira_directory
    &&& a.modules_directory == b.modules_directory
    &&& a.wasm_directory == b.wasm_directory
    &&& a.gen_directory == b.gen_directory
    &&& a.module_cache_directory == b.module_cache_directory
    &&& a.should_do_file_ops == b.should_do_file_ops
    &&& a.known_cargo_dependencies == b.known_cargo_dependencies
    &&& a.hira_base_code == b.hira_base_code
    &&& a.modules2 == b.modules2
}

/// Everything but the loaded modules is as in `b`.
pub open spec fn same_but_modules(a: HiraConfig, b: HiraConfig) -> bool {
    &&& a.cargo_directory == b.cargo_directory
    &&& a.hira_directory == b.hira_directory
    &&& a.modules_directory == b.modules_directory
    &&& a.wasm_directory == b.wasm_directory
    &&& a.gen_directory == b.gen_directory
    &&& a.module_cache_directory == b.module_cache_directory
    &&& a.should_do_file_ops == b.should_do_file_ops
    &&& a.known_cargo_dependencies == b.known_cargo_dependencies
    &&& a.shared_file_data == b.shared_file_data
    &&& a.hira_base_code == b.hira_base_code
}

pub open spec fn string_pairs(v: Seq<(String, String)>) -> Seq<(Seq<char>, Seq<char>)> {
    Seq::new(v.len(), |i: int| (v[i].0@, v[i].1@))
}

/// The path and text of each shared file, as they are written.
pub open spec fn written_files(
    gen_dir: Seq<char>,
    files: Seq<(Seq<char>, Seq<(Seq<char>, Seq<Seq<char>>)>)>,
) -> Seq<(Seq<char>, Seq<char>)> {
    Seq::new(
        files.len(),
        |i: int| (gen_dir + "/"@ + files[i].0, labels_text(sort_by_key(files[i].1))),
    )
}

} // verus!
