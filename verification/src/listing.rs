//! The rows of the list panes as they are drawn: the file tree, the
//! branches, the commits and the reflog, each entry with the mark that the
//! search puts on it.

use crate::diff::{FileDiff, FileStatus};
use crate::repository::{BranchInfo, CommitInfo, ReflogEntry};
use crate::rows::{blanks, push_blanks, run_views, unstyled};
use crate::search::{SearchMatch, SearchOrigin, SearchState};
use crate::text::{char_count, chars_of, push_text, string_of_range};
use crate::tree::TreeEntry;
use crate::view::{CellStyle, StyledRun, Tint};
use vstd::prelude::*;

verus! {

/// What the search says of a list entry: nothing, that it is a match, or
/// that it is the current match.
#[derive(Debug, Clone, Copy, PartialEq, Eq, Structural)]
pub enum Mark {
    Plain,
    Match,
    Current,
}

/// The entry that a hit names in the list that a search started from:
/// none for a hit of another kind.
pub open spec fn named_entry(hit: SearchMatch, origin: SearchOrigin) -> Option<usize> {
    match (hit, origin) {
        (SearchMatch::TreeEntry(idx), SearchOrigin::FileTree) => Some(idx),
        (SearchMatch::CommitEntry(idx), SearchOrigin::CommitLog) => Some(idx),
        (SearchMatch::BranchEntry(idx), SearchOrigin::BranchList) => Some(idx),
        (SearchMatch::ReflogEntry(idx), SearchOrigin::Reflog) => Some(idx),
        _ => None,
    }
}

/// Whether one of the first `n` hits names the entry.
pub open spec fn is_hit(matches: Seq<SearchMatch>, origin: SearchOrigin, idx: usize, n: int) -> bool {
    exists|i: int|
        0 <= i < n && i < matches.len() && #[trigger] named_entry(matches[i], origin) == Some(idx)
}

/// The entry that the current match names, if there is one.
pub open spec fn current_entry(
    matches: Seq<SearchMatch>,
    current: Option<usize>,
    origin: SearchOrigin,
) -> Option<usize> {
    match current {
        Some(i) => if i < matches.len() {
            named_entry(matches[i as int], origin)
        } else {
            None
        },
        None => None,
    }
}

/// The mark of entry `idx` of the list `pane`: plain while the search
/// belongs to another pane; otherwise the current match, a match, or plain.
pub open spec fn mark_of(
    matches: Seq<SearchMatch>,
    current: Option<usize>,
    origin: SearchOrigin,
    pane: SearchOrigin,
    idx: usize,
) -> Mark {
    if origin != pane {
        Mark::Plain
    } else if current_entry(matches, current, pane) == Some(idx) {
        Mark::Current
    } else if is_hit(matches, pane, idx, matches.len() as int) {
        Mark::Match
    } else {
        Mark::Plain
    }
}

fn entry_named(hit: &SearchMatch, origin: SearchOrigin) -> (r: Option<usize>)
    ensures
        r == named_entry(*hit, origin),
{
    match (hit, origin) {
        (SearchMatch::TreeEntry(idx), SearchOrigin::FileTree) => Some(*idx),
        (SearchMatch::CommitEntry(idx), SearchOrigin::CommitLog) => Some(*idx),
        (SearchMatch::BranchEntry(idx), SearchOrigin::BranchList) => Some(*idx),
        (SearchMatch::ReflogEntry(idx), SearchOrigin::Reflog) => Some(*idx),
        _ => None,
    }
}

/// The marks of the `total` entries of the list `pane`.
pub fn entry_marks(search: &SearchState, pane: SearchOrigin, total: usize) -> (marks: Vec<Mark>)
    ensures
        marks@.len() == total,
        forall|idx: usize|
            idx < total ==> marks@[idx as int] == #[trigger] mark_of(
                search.matches@,
                search.current_match_idx,
                search.origin,
                pane,
                idx,
            ),
{
    let mut marks: Vec<Mark> = Vec::new();
    let mut k: usize = 0;
    while k < total
        invariant
            k <= total,
            marks@.len() == k,
            forall|j: int| 0 <= j < k ==> marks@[j] == Mark::Plain,
        decreases total - k,
    {
        marks.push(Mark::Plain);
        k += 1;
    }
    let same_pane = match (search.origin, pane) {
        (SearchOrigin::DiffView, SearchOrigin::DiffView) => true,
        (SearchOrigin::FileTree, SearchOrigin::FileTree) => true,
        (SearchOrigin::CommitLog, SearchOrigin::CommitLog) => true,
        (SearchOrigin::BranchList, SearchOrigin::BranchList) => true,
        (SearchOrigin::Reflog, SearchOrigin::Reflog) => true,
        _ => false,
    };
    if !same_pane {
        return marks;
    }
    let mut i: usize = 0;
    while i < search.matches.len()
        invariant
            i <= search.matches.len(),
            marks@.len() == total,
            forall|idx: usize|
                idx < total ==> marks@[idx as int] == if #[trigger] is_hit(
                    search.matches@,
                    pane,
                    idx,
                    i as int,
                ) {
                    Mark::Match
                } else {
                    Mark::Plain
                },
        decreases search.matches.len() - i,
    {
        let named = entry_named(&search.matches[i], pane);
        let ghost before = marks@;
        match named {
            Some(idx) => {
                if idx < total {
                    marks.set(idx, Mark::Match);
                }
            },
            None => {},
        }
        proof {
            assert forall|idx: usize| idx < total implies marks@[idx as int] == if #[trigger] is_hit(
                search.matches@,
                pane,
                idx,
                i + 1,
            ) {
                Mark::Match
            } else {
                Mark::Plain
            } by {
                if named == Some(idx) {
                    assert(named_entry(search.matches@[i as int], pane) == Some(idx));
                } else {
                    assert(marks@[idx as int] == before[idx as int]);
                    if is_hit(search.matches@, pane, idx, i + 1) {
                        let w = choose|w: int|
                            0 <= w < i + 1 && w < search.matches@.len() && #[trigger] named_entry(
                                search.matches@[w],
                                pane,
                            ) == Some(idx);
                        assert(w < i);
                        assert(is_hit(search.matches@, pane, idx, i as int));
                    }
                    if is_hit(search.matches@, pane, idx, i as int) {
                        let w = choose|w: int|
                            0 <= w < i && w < search.matches@.len() && #[trigger] named_entry(
                                search.matches@[w],
                                pane,
                            ) == Some(idx);
                        assert(is_hit(search.matches@, pane, idx, i + 1));
                    }
                }
            }
        }
        i += 1;
    }
    match search.current_match_idx {
        Some(at) => {
            if at < search.matches.len() {
                match entry_named(&search.matches[at], pane) {
                    Some(idx) => {
                        if idx < total {
                            marks.set(idx, Mark::Current);
                        }
                    },
                    None => {},
                }
            }
        },
        None => {},
    }
    marks
}

/// The background that the search puts behind an entry.
pub open spec fn mark_bg(mark: Mark) -> Option<Tint> {
    match mark {
        Mark::Plain => None,
        Mark::Match => Some(Tint::Rgb(60, 60, 0)),
        Mark::Current => Some(Tint::Rgb(200, 120, 0)),
    }
}

/// A style under the search's mark: the current match is drawn in black,
/// everything else in its own colour, on the mark's background.
pub open spec fn marked(mark: Mark, fg: Option<Tint>, bold: bool) -> CellStyle {
    CellStyle {
        fg: if mark == Mark::Current {
            Some(Tint::Black)
        } else {
            fg
        },
        bg: mark_bg(mark),
        bold,
    }
}

/// Puts a style under the search's mark.
pub fn with_mark(mark: Mark, fg: Option<Tint>, bold: bool) -> (style: CellStyle)
    ensures
        style == marked(mark, fg, bold),
{
    match mark {
        Mark::Plain => CellStyle { fg, bg: None, bold },
        Mark::Match => CellStyle { fg, bg: Some(Tint::Rgb(60, 60, 0)), bold },
        Mark::Current => CellStyle {
            fg: Some(Tint::Black),
            bg: Some(Tint::Rgb(200, 120, 0)),
            bold,
        },
    }
}

/// The style of the selected row of a list: bold, and on dark gray
/// unless the search has marked the row.
pub open spec fn selected_style(mark: Mark) -> CellStyle {
    CellStyle {
        fg: None,
        bg: if mark == Mark::Plain {
            Some(Tint::DarkGray)
        } else {
            None
        },
        bold: true,
    }
}

/// The style of the selected row of a list whose marks are `marks`.
pub fn selection_style(marks: &Vec<Mark>, selected: usize) -> (style: CellStyle)
    ensures
        style == selected_style(
            if selected < marks@.len() {
                marks@[selected as int]
            } else {
                Mark::Plain
            },
        ),
{
    let plain = if selected < marks.len() {
        match marks[selected] {
            Mark::Plain => true,
            _ => false,
        }
    } else {
        true
    };
    CellStyle {
        fg: None,
        bg: if plain {
            Some(Tint::DarkGray)
        } else {
            None
        },
        bold: true,
    }
}

/// A run of two texts behind one another.
fn joined_run(first: &str, second: &str, style: CellStyle) -> (run: StyledRun)
    ensures
        (run.text@, run.style) == (first@ + second@, style),
{
    let mut text = first.to_owned();
    push_text(&mut text, second);
    StyledRun { text, style }
}

/// A run of three texts behind one another.
fn framed_run(first: &str, second: &str, third: &str, style: CellStyle) -> (run: StyledRun)
    ensures
        (run.text@, run.style) == (first@ + second@ + third@, style),
{
    let mut text = first.to_owned();
    push_text(&mut text, second);
    push_text(&mut text, third);
    StyledRun { text, style }
}

/// The row of a branch: a star before the checked-out branch, then the
/// name. The checked-out branch is bold green where the search has not
/// marked it.
pub open spec fn branch_row(name: Seq<char>, is_head: bool, mark: Mark) -> Seq<(Seq<char>, CellStyle)> {
    let name_style = match mark {
        Mark::Plain => if is_head {
            CellStyle { fg: Some(Tint::Green), bg: None, bold: true }
        } else {
            unstyled()
        },
        _ => marked(mark, None, false),
    };
    seq![
        (" "@, unstyled()),
        if is_head {
            ("* "@, marked(mark, Some(Tint::Green), true))
        } else {
            ("  "@, unstyled())
        },
        (name, name_style),
    ]
}

/// Draws the row of a branch.
pub fn build_branch_row(branch: &BranchInfo, mark: Mark) -> (runs: Vec<StyledRun>)
    ensures
        run_views(runs@) == branch_row(branch.name@, branch.is_head, mark),
{
    let name_style = match mark {
        Mark::Plain => {
            if branch.is_head {
                CellStyle { fg: Some(Tint::Green), bg: None, bold: true }
            } else {
                CellStyle { fg: None, bg: None, bold: false }
            }
        },
        _ => with_mark(mark, None, false),
    };
    let none = CellStyle { fg: None, bg: None, bold: false };
    let mut runs: Vec<StyledRun> = Vec::new();
    runs.push(StyledRun { text: " ".to_owned(), style: none });
    if branch.is_head {
        runs.push(
            StyledRun { text: "* ".to_owned(), style: with_mark(mark, Some(Tint::Green), true) },
        );
    } else {
        runs.push(StyledRun { text: "  ".to_owned(), style: none });
    }
    runs.push(StyledRun { text: branch.name.clone(), style: name_style });
    assert(run_views(runs@) =~= branch_row(branch.name@, branch.is_head, mark));
    runs
}

/// A text filled with blanks to at least `width` characters.
pub open spec fn filled_to(text: Seq<char>, width: int) -> Seq<char> {
    text + blanks(width - text.len())
}

/// The row of a commit: its short hash in yellow, its date in dark gray,
/// its author in cyan and filled to twelve columns, and its message.
pub open spec fn commit_row(commit: CommitInfo, mark: Mark) -> Seq<(Seq<char>, CellStyle)> {
    seq![
        (" "@ + commit.short_hash@ + " "@, marked(mark, Some(Tint::Yellow), false)),
        (commit.date@ + " "@, marked(mark, Some(Tint::DarkGray), false)),
        (filled_to(commit.author@, 12) + " "@, marked(mark, Some(Tint::Cyan), false)),
        (commit.message@, marked(mark, None, false)),
    ]
}

/// Draws the row of a commit.
pub fn build_commit_row(commit: &CommitInfo, mark: Mark) -> (runs: Vec<StyledRun>)
    ensures
        run_views(runs@) == commit_row(*commit, mark),
{
    let mut author = commit.author.clone();
    let width = char_count(commit.author.as_str());
    if width < 12 {
        push_blanks(&mut author, 12 - width);
    } else {
        assert(author@ =~= filled_to(commit.author@, 12));
    }
    let mut runs: Vec<StyledRun> = Vec::new();
    runs.push(
        framed_run(" ", commit.short_hash.as_str(), " ", with_mark(mark, Some(Tint::Yellow), false)),
    );
    runs.push(joined_run(commit.date.as_str(), " ", with_mark(mark, Some(Tint::DarkGray), false)));
    runs.push(joined_run(author.as_str(), " ", with_mark(mark, Some(Tint::Cyan), false)));
    runs.push(joined_run(commit.message.as_str(), "", with_mark(mark, None, false)));
    proof {
        reveal_strlit("");
        assert(commit.message@ + ""@ =~= commit.message@);
        assert(run_views(runs@) =~= commit_row(*commit, mark));
    }
    runs
}

/// The row of a reflog entry: its short hash in yellow, its selector in
/// dark gray, its action in bold cyan with a colon, and its message.
pub open spec fn reflog_row(entry: ReflogEntry, mark: Mark) -> Seq<(Seq<char>, CellStyle)> {
    seq![
        (" "@ + entry.short_hash@ + " "@, marked(mark, Some(Tint::Yellow), false)),
        (entry.selector@ + " "@, marked(mark, Some(Tint::DarkGray), false)),
        (entry.action@ + ": "@, marked(mark, Some(Tint::Cyan), true)),
        (entry.message@, marked(mark, None, false)),
    ]
}

/// Draws the row of a reflog entry.
pub fn build_reflog_row(entry: &ReflogEntry, mark: Mark) -> (runs: Vec<StyledRun>)
    ensures
        run_views(runs@) == reflog_row(*entry, mark),
{
    let mut runs: Vec<StyledRun> = Vec::new();
    runs.push(
        framed_run(" ", entry.short_hash.as_str(), " ", with_mark(mark, Some(Tint::Yellow), false)),
    );
    runs.push(
        joined_run(entry.selector.as_str(), " ", with_mark(mark, Some(Tint::DarkGray), false)),
    );
    runs.push(joined_run(entry.action.as_str(), ": ", with_mark(mark, Some(Tint::Cyan), true)));
    runs.push(joined_run(entry.message.as_str(), "", with_mark(mark, None, false)));
    proof {
        reveal_strlit("");
        assert(entry.message@ + ""@ =~= entry.message@);
        assert(run_views(runs@) =~= reflog_row(*entry, mark));
    }
    runs
}

/// The part of a path behind its last slash: the whole path where it
/// holds none.
pub open spec fn tail_name(path: Seq<char>) -> Seq<char>
    decreases path.len(),
{
    if path.len() == 0 {
        path
    } else if path.last() == '/' {
        Seq::empty()
    } else {
        tail_name(path.drop_last()).push(path.last())
    }
}

/// Cuts the part of a path behind its last slash.
pub fn name_of(path: &str) -> (name: String)
    ensures
        name@ == tail_name(path@),
{
    let chars = chars_of(path);
    let mut cut: usize = 0;
    let mut k: usize = 0;
    assert(chars@.take(0) =~= Seq::<char>::empty());
    assert(chars@.subrange(0, 0) =~= Seq::<char>::empty());
    while k < chars.len()
        invariant
            k <= chars.len(),
            cut <= k,
            tail_name(chars@.take(k as int)) == chars@.subrange(cut as int, k as int),
        decreases chars.len() - k,
    {
        let ghost next = chars@.take(k + 1);
        proof {
            assert(next.drop_last() =~= chars@.take(k as int));
            assert(next.last() == chars@[k as int]);
        }
        if chars[k] == '/' {
            cut = k + 1;
            assert(chars@.subrange(cut as int, k + 1) =~= Seq::<char>::empty());
        } else {
            assert(chars@.subrange(cut as int, k + 1) =~= chars@.subrange(cut as int, k as int).push(
                chars@[k as int],
            ));
        }
        k += 1;
    }
    assert(chars@.take(k as int) =~= chars@);
    string_of_range(&chars, cut, chars.len())
}

/// The colour of the status letter of a file.
pub open spec fn status_tint(status: FileStatus) -> Tint {
    match status {
        FileStatus::Modified => Tint::Yellow,
        FileStatus::Added => Tint::Green,
        FileStatus::Deleted => Tint::Red,
        FileStatus::Renamed => Tint::Blue,
        FileStatus::Untracked => Tint::DarkGray,
    }
}

/// The row of a directory of the file tree: indented by two columns for
/// every level, an arrow that tells whether it is collapsed, and its name
/// with a slash, in dark gray.
pub open spec fn dir_row(path: Seq<char>, depth: usize, collapsed: bool, mark: Mark) -> Seq<
    (Seq<char>, CellStyle),
> {
    seq![
        (" "@ + blanks(depth as int) + blanks(depth as int) + "  "@, unstyled()),
        (
            (if collapsed {
                "▶ "@
            } else {
                "▼ "@
            }) + tail_name(path) + "/"@,
            marked(mark, Some(Tint::DarkGray), false),
        ),
    ]
}

/// The row of a file of the file tree: indented by two columns for every
/// level, its status letter in bold in the status's colour, and its name:
/// the whole path at the top level, otherwise the part behind the last slash.
pub open spec fn file_row(path: Seq<char>, status: FileStatus, depth: usize, mark: Mark) -> Seq<
    (Seq<char>, CellStyle),
> {
    seq![
        (" "@ + blanks(depth as int) + blanks(depth as int), unstyled()),
        (
            seq![status.icon_char(), ' '],
            CellStyle { fg: Some(status_tint(status)), bg: None, bold: true },
        ),
        (
            if depth > 0 {
                tail_name(path)
            } else {
                path
            },
            marked(mark, None, false),
        ),
    ]
}

/// A blank and the indentation of a level of the file tree.
fn indentation(depth: usize) -> (r: String)
    ensures
        r@ == " "@ + blanks(depth as int) + blanks(depth as int),
{
    let mut r = " ".to_owned();
    push_blanks(&mut r, depth);
    push_blanks(&mut r, depth);
    r
}

/// Draws the row of a directory.
pub fn build_dir_row(path: &str, depth: usize, collapsed: bool, mark: Mark) -> (runs: Vec<StyledRun>)
    ensures
        run_views(runs@) == dir_row(path@, depth, collapsed, mark),
{
    let mut lead = indentation(depth);
    push_text(&mut lead, "  ");
    let arrow = if collapsed {
        "▶ "
    } else {
        "▼ "
    };
    let name = name_of(path);
    let mut runs: Vec<StyledRun> = Vec::new();
    runs.push(StyledRun { text: lead, style: CellStyle { fg: None, bg: None, bold: false } });
    runs.push(framed_run(arrow, name.as_str(), "/", with_mark(mark, Some(Tint::DarkGray), false)));
    assert(run_views(runs@) =~= dir_row(path@, depth, collapsed, mark));
    runs
}

/// Draws the row of a file.
pub fn build_file_row(file: &FileDiff, depth: usize, mark: Mark) -> (runs: Vec<StyledRun>)
    ensures
        run_views(runs@) == file_row(file.path@, file.status, depth, mark),
{
    let tint = match file.status {
        FileStatus::Modified => Tint::Yellow,
        FileStatus::Added => Tint::Green,
        FileStatus::Deleted => Tint::Red,
        FileStatus::Renamed => Tint::Blue,
        FileStatus::Untracked => Tint::DarkGray,
    };
    let name = if depth > 0 {
        name_of(file.path.as_str())
    } else {
        file.path.clone()
    };
    let letter = joined_run(
        file.status.icon(),
        " ",
        CellStyle { fg: Some(tint), bg: None, bold: true },
    );
    proof {
        reveal_strlit(" ");
        assert(letter.text@ =~= seq![file.status.icon_char(), ' ']);
    }
    let mut runs: Vec<StyledRun> = Vec::new();
    runs.push(
        StyledRun { text: indentation(depth), style: CellStyle { fg: None, bg: None, bold: false } },
    );
    runs.push(letter);
    runs.push(StyledRun { text: name, style: with_mark(mark, None, false) });
    assert(run_views(runs@) =~= file_row(file.path@, file.status, depth, mark));
    runs
}

/// The row of an entry of the file tree; empty for a file entry that
/// names no file.
pub open spec fn tree_row(entry: TreeEntry, files: Seq<FileDiff>, mark: Mark) -> Seq<
    (Seq<char>, CellStyle),
> {
    match entry {
        TreeEntry::Dir { path, depth, collapsed } => dir_row(path@, depth, collapsed, mark),
        TreeEntry::File { file_idx, depth } => if file_idx < files.len() {
            file_row(files[file_idx as int].path@, files[file_idx as int].status, depth, mark)
        } else {
            Seq::empty()
        },
    }
}

/// Draws the row of an entry of the file tree.
pub fn build_tree_row(entry: &TreeEntry, files: &Vec<FileDiff>, mark: Mark) -> (runs: Vec<StyledRun>)
    ensures
        run_views(runs@) == tree_row(*entry, files@, mark),
{
    match entry {
        TreeEntry::Dir { path, depth, collapsed } => build_dir_row(
            path.as_str(),
            *depth,
            *collapsed,
            mark,
        ),
        TreeEntry::File { file_idx, depth } => {
            if *file_idx < files.len() {
                build_file_row(&files[*file_idx], *depth, mark)
            } else {
                let runs: Vec<StyledRun> = Vec::new();
                assert(run_views(runs@) =~= Seq::<(Seq<char>, CellStyle)>::empty());
                runs
            }
        },
    }
}

} // verus!
