//! The file tree: the changed files grouped under their directories, with
//! directories that can be collapsed and lone files shown inline.

use crate::diff::FileDiff;
use crate::text::{chars_of, string_of};
use crate::yank::last_at_or_before;
use vstd::prelude::*;

verus! {

/// An entry of the file tree: a directory, or a file by its index in the diff.
#[derive(Debug, PartialEq, Eq)]
pub enum TreeEntry {
    Dir { path: String, depth: usize, collapsed: bool },
    File { file_idx: usize, depth: usize },
}

/// An entry of the file tree as plain values.
pub enum TreeEntryView {
    Dir { path: Seq<char>, depth: usize, collapsed: bool },
    File { file_idx: usize, depth: usize },
}

impl DeepView for TreeEntry {
    type V = TreeEntryView;

    open spec fn deep_view(&self) -> TreeEntryView {
        match self {
            TreeEntry::Dir { path, depth, collapsed } => TreeEntryView::Dir {
                path: path@,
                depth: *depth,
                collapsed: *collapsed,
            },
            TreeEntry::File { file_idx, depth } => TreeEntryView::File {
                file_idx: *file_idx,
                depth: *depth,
            },
        }
    }
}

/// The pieces of `s` between the occurrences of `sep`; always at least one.
pub open spec fn split_on(s: Seq<char>, sep: char) -> Seq<Seq<char>>
    decreases s.len(),
{
    if s.len() == 0 {
        seq![Seq::empty()]
    } else if s.last() == sep {
        split_on(s.drop_last(), sep).push(Seq::empty())
    } else {
        let before = split_on(s.drop_last(), sep);
        before.drop_last().push(before.last().push(s.last()))
    }
}

/// The directory segments of a path: what stands before its last slash,
/// split at slashes. A path without a slash has none.
pub open spec fn dir_segments(path: Seq<char>) -> Option<Seq<Seq<char>>> {
    let cut = last_at_or_before(path, '/', path.len() - 1);
    if cut >= 0 {
        Some(split_on(path.take(cut), '/'))
    } else {
        None
    }
}

/// The segments `0..=i` joined by slashes.
pub open spec fn joined_upto(parts: Seq<Seq<char>>, i: int) -> Seq<char>
    decreases i,
{
    if i <= 0 {
        parts[0]
    } else {
        joined_upto(parts, i - 1) + seq!['/'] + parts[i]
    }
}

/// The name under which a file counts for the directory of its segments
/// `0..=i`: the segments joined by slashes, but with no slash after an
/// empty name.
pub open spec fn count_key(parts: Seq<Seq<char>>, i: int) -> Seq<char>
    decreases i,
{
    if i <= 0 {
        parts[0]
    } else if count_key(parts, i - 1).len() > 0 {
        count_key(parts, i - 1) + seq!['/'] + parts[i]
    } else {
        parts[i]
    }
}

/// How many of the first `n` count keys of `parts` equal `name`.
pub open spec fn key_hits(parts: Seq<Seq<char>>, name: Seq<char>, n: int) -> nat
    decreases n,
{
    if n <= 0 {
        0
    } else {
        key_hits(parts, name, n - 1) + if count_key(parts, n - 1) == name {
            1nat
        } else {
            0nat
        }
    }
}

/// How many files among the first `k` count for the directory `name`.
pub open spec fn dir_hits(dirs: Seq<Option<Seq<Seq<char>>>>, name: Seq<char>, k: int) -> nat
    decreases k,
{
    if k <= 0 {
        0
    } else {
        dir_hits(dirs, name, k - 1) + match dirs[k - 1] {
            Some(parts) => key_hits(parts, name, parts.len() as int),
            None => 0,
        }
    }
}

/// The length of the longest common prefix of two segment lists, counted
/// from index `i` on.
pub open spec fn common_from(a: Seq<Seq<char>>, b: Seq<Seq<char>>, i: int) -> int
    decreases a.len() - i,
{
    if 0 <= i < a.len() && i < b.len() && a[i] == b[i] {
        common_from(a, b, i + 1)
    } else {
        i
    }
}

/// Whether one of the directories `from..to` along `parts` is collapsed.
pub open spec fn collapsed_between(
    parts: Seq<Seq<char>>,
    collapsed: Seq<Seq<char>>,
    from: int,
    to: int,
) -> bool
    decreases to - from,
{
    if to <= from {
        false
    } else {
        collapsed_between(parts, collapsed, from, to - 1) || collapsed.contains(
            joined_upto(parts, to - 1),
        )
    }
}

/// Whether one of the first `n` directories along `parts`, named as for
/// counting, is collapsed.
pub open spec fn key_collapsed(parts: Seq<Seq<char>>, collapsed: Seq<Seq<char>>, n: int) -> bool
    decreases n,
{
    if n <= 0 {
        false
    } else {
        key_collapsed(parts, collapsed, n - 1) || collapsed.contains(count_key(parts, n - 1))
    }
}

/// The directory entries that a file adds below the directories it shares
/// with the file before it: one for each new directory `from..to`, as long
/// as no directory before it in that range is collapsed.
pub open spec fn new_dirs(parts: Seq<Seq<char>>, collapsed: Seq<Seq<char>>, from: int, to: int) -> Seq<
    TreeEntryView,
>
    decreases to - from,
{
    if to <= from {
        Seq::empty()
    } else if collapsed_between(parts, collapsed, from, to - 1) {
        new_dirs(parts, collapsed, from, to - 1)
    } else {
        new_dirs(parts, collapsed, from, to - 1).push(
            TreeEntryView::Dir {
                path: joined_upto(parts, to - 1),
                depth: (to - 1) as usize,
                collapsed: collapsed.contains(joined_upto(parts, to - 1)),
            },
        )
    }
}

/// The directory of a path as its text gives it: what stands before its last
/// slash.
pub open spec fn dir_text(path: Seq<char>) -> Seq<char> {
    path.take(last_at_or_before(path, '/', path.len() - 1))
}

/// The entries for the first `k` files, and the directory segments of the
/// last of them that was placed under its directories.
pub open spec fn tree_upto(paths: Seq<Seq<char>>, collapsed: Seq<Seq<char>>, k: int) -> (
    Seq<TreeEntryView>,
    Seq<Seq<char>>,
)
    decreases k,
{
    if k <= 0 {
        (Seq::empty(), Seq::empty())
    } else {
        let (entries, prev) = tree_upto(paths, collapsed, k - 1);
        let path = paths[k - 1];
        let inline = TreeEntryView::File { file_idx: (k - 1) as usize, depth: 0 };
        match dir_segments(path) {
            None => (entries.push(inline), Seq::empty()),
            Some(parts) => if dir_hits(
                Seq::new(paths.len(), |f: int| dir_segments(paths[f])),
                dir_text(path),
                paths.len() as int,
            ) == 1 {
                (entries.push(inline), Seq::empty())
            } else {
                let common = common_from(prev, parts, 0);
                let dirs = new_dirs(parts, collapsed, common, parts.len() as int);
                if key_collapsed(parts, collapsed, parts.len() as int) {
                    (entries + dirs, parts)
                } else {
                    (
                        (entries + dirs).push(
                            TreeEntryView::File {
                                file_idx: (k - 1) as usize,
                                depth: parts.len() as usize,
                            },
                        ),
                        parts,
                    )
                }
            },
        }
    }
}

/// The entries of the file tree for files with these paths. A file without
/// a directory, or the only file counted for its directory, stands inline at
/// depth 0. Any other file stands under one entry per directory on its path
/// that the file before it does not share; below a collapsed directory
/// nothing is shown.
pub open spec fn tree_entries(paths: Seq<Seq<char>>, collapsed: Seq<Seq<char>>) -> Seq<
    TreeEntryView,
> {
    tree_upto(paths, collapsed, paths.len() as int).0
}

/// The paths of the files, in order.
pub open spec fn paths_of(files: Seq<crate::diff::FileView>) -> Seq<Seq<char>> {
    Seq::new(files.len(), |f: int| files[f].path)
}

/// The file that the entry at `idx` stands for, if it is a file entry.
pub open spec fn file_at(entries: Seq<TreeEntryView>, idx: int) -> Option<usize> {
    if 0 <= idx < entries.len() {
        match entries[idx] {
            TreeEntryView::File { file_idx, .. } => Some(file_idx),
            _ => None,
        }
    } else {
        None
    }
}

fn split_chars(s: &Vec<char>, to: usize, sep: char) -> (parts: Vec<Vec<char>>)
    requires
        to <= s.len(),
    ensures
        parts.deep_view() == split_on(s@.take(to as int), sep),
        parts.len() >= 1,
{
    let mut parts: Vec<Vec<char>> = Vec::new();
    let mut current: Vec<char> = Vec::new();
    let mut i: usize = 0;
    assert(s@.take(0) =~= Seq::<char>::empty());
    while i < to
        invariant
            i <= to <= s.len(),
            parts.deep_view().push(current@) == split_on(s@.take(i as int), sep),
        decreases to - i,
    {
        let ghost prefix = s@.take(i as int);
        let ghost next = s@.take(i + 1);
        let ghost done = parts.deep_view();
        let ghost cur = current@;
        proof {
            assert(next.drop_last() =~= prefix);
            assert(next.last() == s@[i as int]);
        }
        if s[i] == sep {
            assert(current.deep_view() =~= cur);
            parts.push(current);
            current = Vec::new();
            assert(parts.deep_view() =~= done.push(cur));
        } else {
            current.push(s[i]);
            assert(done.push(cur).drop_last() =~= done);
        }
        i += 1;
    }
    let ghost done = parts.deep_view();
    let ghost cur = current@;
    assert(current.deep_view() =~= cur);
    parts.push(current);
    assert(parts.deep_view() =~= done.push(cur));
    parts
}

fn last_slash(path: &Vec<char>) -> (r: Option<usize>)
    ensures
        match r {
            Some(i) => i == last_at_or_before(path@, '/', path.len() - 1) && i < path.len(),
            None => last_at_or_before(path@, '/', path.len() - 1) < 0,
        },
{
    let mut i: usize = path.len();
    while i > 0
        invariant
            i <= path.len(),
            last_at_or_before(path@, '/', i - 1) == last_at_or_before(path@, '/', path.len() - 1),
        decreases i,
    {
        if path[i - 1] == '/' {
            return Some(i - 1);
        }
        i -= 1;
    }
    None
}

fn segments_of(path: &str) -> (r: Option<Vec<Vec<char>>>)
    ensures
        r.deep_view() == dir_segments(path@),
        r matches Some(parts) ==> parts.len() >= 1,
{
    let chars = chars_of(path);
    match last_slash(&chars) {
        Some(cut) => Some(split_chars(&chars, cut, '/')),
        None => None,
    }
}

fn same_chars(a: &Vec<char>, b: &Vec<char>) -> (r: bool)
    ensures
        r == (a@ == b@),
{
    if a.len() != b.len() {
        return false;
    }
    let mut i: usize = 0;
    while i < a.len()
        invariant
            i <= a.len(),
            a.len() == b.len(),
            a@.take(i as int) == b@.take(i as int),
        decreases a.len() - i,
    {
        if a[i] != b[i] {
            assert(a@[i as int] != b@[i as int]);
            return false;
        }
        assert(a@.take(i + 1) =~= a@.take(i as int).push(a@[i as int]));
        assert(b@.take(i + 1) =~= b@.take(i as int).push(b@[i as int]));
        i += 1;
    }
    assert(a@.take(a.len() as int) =~= a@);
    assert(b@.take(b.len() as int) =~= b@);
    true
}

fn append_chars(out: &mut Vec<char>, more: &Vec<char>)
    ensures
        final(out)@ == old(out)@ + more@,
{
    let mut i: usize = 0;
    assert(out@ =~= old(out)@ + more@.take(0));
    while i < more.len()
        invariant
            i <= more.len(),
            out@ == old(out)@ + more@.take(i as int),
        decreases more.len() - i,
    {
        out.push(more[i]);
        assert(more@.take(i + 1) =~= more@.take(i as int).push(more@[i as int]));
        i += 1;
    }
    assert(more@.take(more.len() as int) =~= more@);
}

/// Whether the collapsed directories hold `path`.
fn is_collapsed(collapsed: &Vec<String>, path: &Vec<char>) -> (r: bool)
    ensures
        r == collapsed.deep_view().contains(path@),
{
    let mut i: usize = 0;
    while i < collapsed.len()
        invariant
            i <= collapsed.len(),
            forall|j: int| 0 <= j < i ==> collapsed.deep_view()[j] != path@,
        decreases collapsed.len() - i,
    {
        let entry = chars_of(collapsed[i].as_str());
        assert(collapsed.deep_view()[i as int] == entry@);
        if same_chars(&entry, path) {
            return true;
        }
        i += 1;
    }
    false
}

/// Counts, up to two, the files that count for the directory `name`.
fn count_dir_hits(dirs: &Vec<Option<Vec<Vec<char>>>>, name: &Vec<char>) -> (c: usize)
    requires
        forall|f: int|
            0 <= f < dirs.len() ==> ((#[trigger] dirs[f]) matches Some(parts) ==> parts.len() >= 1),
    ensures
        (c == 1) == (dir_hits(dirs.deep_view(), name@, dirs.len() as int) == 1),
{
    let ghost all = dirs.deep_view();
    let mut c: usize = 0;
    let mut f: usize = 0;
    while f < dirs.len()
        invariant
            f <= dirs.len(),
            all == dirs.deep_view(),
            forall|g: int|
                0 <= g < dirs.len() ==> ((#[trigger] dirs[g]) matches Some(parts) ==> parts.len()
                    >= 1),
            c <= 2,
            c < 2 ==> c == dir_hits(all, name@, f as int),
            c == 2 ==> dir_hits(all, name@, f as int) >= 2,
        decreases dirs.len() - f,
    {
        assert(all[f as int] == dirs[f as int].deep_view());
        match &dirs[f] {
            Some(parts) => {
                let ghost pv = parts.deep_view();
                let mut key: Vec<char> = Vec::new();
                let mut i: usize = 0;
                let mut hits: usize = 0;
                while i < parts.len()
                    invariant
                        i <= parts.len(),
                        pv == parts.deep_view(),
                        parts.len() >= 1,
                        i > 0 ==> key@ == count_key(pv, i - 1),
                        i == 0 ==> key@.len() == 0,
                        hits <= 2,
                        hits < 2 ==> hits == key_hits(pv, name@, i as int),
                        hits == 2 ==> key_hits(pv, name@, i as int) >= 2,
                    decreases parts.len() - i,
                {
                    assert(parts[i as int].deep_view() =~= parts[i as int]@);
                    assert(pv[i as int] == parts[i as int]@);
                    if key.len() > 0 {
                        key.push('/');
                    }
                    append_chars(&mut key, &parts[i]);
                    assert(key@ =~= count_key(pv, i as int));
                    if same_chars(&key, name) && hits < 2 {
                        hits += 1;
                    }
                    i += 1;
                }
                c = if c + hits >= 2 {
                    2
                } else {
                    c + hits
                };
            },
            None => {},
        }
        f += 1;
    }
    c
}

fn common_prefix_len(a: &Vec<Vec<char>>, b: &Vec<Vec<char>>) -> (n: usize)
    ensures
        n == common_from(a.deep_view(), b.deep_view(), 0),
        n <= a.len(),
        n <= b.len(),
{
    let mut i: usize = 0;
    while i < a.len() && i < b.len()
        invariant
            i <= a.len(),
            i <= b.len(),
            common_from(a.deep_view(), b.deep_view(), i as int) == common_from(
                a.deep_view(),
                b.deep_view(),
                0,
            ),
        decreases a.len() - i,
    {
        assert(a[i as int].deep_view() =~= a[i as int]@);
        assert(b[i as int].deep_view() =~= b[i as int]@);
        if !same_chars(&a[i], &b[i]) {
            return i;
        }
        i += 1;
    }
    i
}

/// Adds to `entries` what one file under directories contributes.
fn push_under_dirs(
    entries: &mut Vec<TreeEntry>,
    parts: &Vec<Vec<char>>,
    collapsed: &Vec<String>,
    common: usize,
    file_idx: usize,
)
    requires
        parts.len() >= 1,
        common <= parts.len(),
    ensures
        final(entries).deep_view() == {
            let dirs = new_dirs(
                parts.deep_view(),
                collapsed.deep_view(),
                common as int,
                parts.len() as int,
            );
            if key_collapsed(parts.deep_view(), collapsed.deep_view(), parts.len() as int) {
                old(entries).deep_view() + dirs
            } else {
                (old(entries).deep_view() + dirs).push(
                    TreeEntryView::File { file_idx, depth: parts.len() },
                )
            }
        },
{
    let ghost pv = parts.deep_view();
    let ghost cv = collapsed.deep_view();
    let ghost before = entries.deep_view();
    let mut joined: Vec<char> = Vec::new();
    let mut key: Vec<char> = Vec::new();
    let mut hidden_new = false;
    let mut hidden_any = false;
    let mut i: usize = 0;
    assert(entries.deep_view() =~= before + new_dirs(pv, cv, common as int, common as int));
    while i < parts.len()
        invariant
            i <= parts.len(),
            parts.len() >= 1,
            common <= parts.len(),
            pv == parts.deep_view(),
            cv == collapsed.deep_view(),
            i > 0 ==> joined@ == joined_upto(pv, i - 1),
            i == 0 ==> joined@.len() == 0,
            i > 0 ==> key@ == count_key(pv, i - 1),
            i == 0 ==> key@.len() == 0,
            hidden_any == key_collapsed(pv, cv, i as int),
            hidden_new == collapsed_between(pv, cv, common as int, i as int),
            entries.deep_view() == before + new_dirs(
                pv,
                cv,
                common as int,
                if i >= common {
                    i as int
                } else {
                    common as int
                },
            ),
        decreases parts.len() - i,
    {
        assert(parts[i as int].deep_view() =~= parts[i as int]@);
        assert(pv[i as int] == parts[i as int]@);
        if i > 0 {
            joined.push('/');
        }
        append_chars(&mut joined, &parts[i]);
        assert(joined@ =~= joined_upto(pv, i as int));
        if key.len() > 0 {
            key.push('/');
        }
        append_chars(&mut key, &parts[i]);
        assert(key@ =~= count_key(pv, i as int));
        if is_collapsed(collapsed, &key) {
            hidden_any = true;
        }
        if i >= common {
            let here = is_collapsed(collapsed, &joined);
            let ghost so_far = entries.deep_view();
            if !hidden_new {
                let entry = TreeEntry::Dir { path: string_of(&joined), depth: i, collapsed: here };
                entries.push(entry);
                assert(entries.deep_view() =~= so_far.push(entry.deep_view()));
                assert(before + new_dirs(pv, cv, common as int, i + 1) =~= so_far.push(
                    entry.deep_view(),
                ));
            }
            if here {
                hidden_new = true;
            }
        }
        i += 1;
    }
    if !hidden_any {
        let ghost so_far = entries.deep_view();
        let entry = TreeEntry::File { file_idx, depth: parts.len() };
        entries.push(entry);
        assert(entries.deep_view() =~= so_far.push(entry.deep_view()));
    }
}

fn take_chars(chars: &Vec<char>, to: usize) -> (r: Vec<char>)
    requires
        to <= chars.len(),
    ensures
        r@ == chars@.take(to as int),
{
    let mut r: Vec<char> = Vec::new();
    let mut i: usize = 0;
    assert(r@ =~= chars@.take(0));
    while i < to
        invariant
            i <= to <= chars.len(),
            r@ == chars@.take(i as int),
        decreases to - i,
    {
        r.push(chars[i]);
        assert(chars@.take(i + 1) =~= chars@.take(i as int).push(chars@[i as int]));
        i += 1;
    }
    r
}

/// Builds the entries of the file tree.
pub fn build_tree_entries(files: &Vec<FileDiff>, collapsed: &Vec<String>) -> (entries: Vec<
    TreeEntry,
>)
    ensures
        entries.deep_view() == tree_entries(paths_of(files.deep_view()), collapsed.deep_view()),
{
    let ghost paths = paths_of(files.deep_view());
    let ghost cv = collapsed.deep_view();
    let ghost all_dirs = Seq::new(paths.len(), |f: int| dir_segments(paths[f]));
    let mut dirs: Vec<Option<Vec<Vec<char>>>> = Vec::new();
    let mut f: usize = 0;
    while f < files.len()
        invariant
            f <= files.len(),
            paths == paths_of(files.deep_view()),
            dirs.len() == f,
            forall|g: int| 0 <= g < f ==> (#[trigger] dirs[g]).deep_view() == dir_segments(paths[g]),
            forall|g: int|
                0 <= g < f ==> ((#[trigger] dirs[g]) matches Some(parts) ==> parts.len() >= 1),
        decreases files.len() - f,
    {
        assert(paths[f as int] == files[f as int].path@);
        dirs.push(segments_of(files[f].path.as_str()));
        f += 1;
    }
    assert(dirs.deep_view() =~= all_dirs);
    let mut entries: Vec<TreeEntry> = Vec::new();
    let mut prev: Option<usize> = None;
    let mut k: usize = 0;
    assert(entries.deep_view() =~= Seq::<TreeEntryView>::empty());
    while k < files.len()
        invariant
            k <= files.len(),
            dirs.len() == files.len(),
            paths == paths_of(files.deep_view()),
            cv == collapsed.deep_view(),
            all_dirs == Seq::new(paths.len(), |f: int| dir_segments(paths[f])),
            dirs.deep_view() == all_dirs,
            forall|g: int|
                0 <= g < dirs.len() ==> ((#[trigger] dirs[g]) matches Some(parts) ==> parts.len()
                    >= 1),
            entries.deep_view() == tree_upto(paths, cv, k as int).0,
            match prev {
                Some(p) => p < k && dirs[p as int] is Some && dirs[p as int]->0.deep_view()
                    == tree_upto(paths, cv, k as int).1,
                None => tree_upto(paths, cv, k as int).1.len() == 0,
            },
        decreases files.len() - k,
    {
        let ghost before = entries.deep_view();
        assert(paths[k as int] == files[k as int].path@);
        assert(all_dirs[k as int] == dirs[k as int].deep_view());
        match &dirs[k] {
            None => {
                let entry = TreeEntry::File { file_idx: k, depth: 0 };
                entries.push(entry);
                assert(entries.deep_view() =~= before.push(entry.deep_view()));
                prev = None;
            },
            Some(parts) => {
                let chars = chars_of(files[k].path.as_str());
                let leaf = match last_slash(&chars) {
                    Some(cut) => take_chars(&chars, cut),
                    None => Vec::new(),
                };
                assert(leaf@ == dir_text(paths[k as int]));
                if count_dir_hits(&dirs, &leaf) == 1 {
                    let entry = TreeEntry::File { file_idx: k, depth: 0 };
                    entries.push(entry);
                    assert(entries.deep_view() =~= before.push(entry.deep_view()));
                    prev = None;
                } else {
                    let common = match prev {
                        Some(p) => match &dirs[p] {
                            Some(prev_parts) => common_prefix_len(prev_parts, parts),
                            None => 0,
                        },
                        None => 0,
                    };
                    push_under_dirs(&mut entries, parts, collapsed, common, k);
                    prev = Some(k);
                }
            },
        }
        k += 1;
    }
    entries
}

} // verus!
