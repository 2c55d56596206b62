//! The diff data model and the row aligner that turns the ordered lines of a
//! hunk into side-by-side rows.

use crate::cursor::DiffSide;
use vstd::prelude::*;

verus! {

/// How a file has changed.
#[derive(Debug, Clone, Copy, PartialEq, Eq, Structural)]
pub enum FileStatus {
    Added,
    Deleted,
    Modified,
    Renamed,
    Untracked,
}

/// `git2::Delta`, the kind of change of a file as libgit2 reports it. Its
/// variants are told apart by `kind_of_delta`.
#[verifier::external_type_specification]
#[verifier::external_body]
pub struct ExDelta(git2::Delta);

/// The kinds of change that the diffing collaborator tells apart.
#[derive(Debug, Clone, Copy, PartialEq, Eq, Structural)]
pub enum DeltaKind {
    Unmodified,
    Added,
    Deleted,
    Modified,
    Renamed,
    Copied,
    Ignored,
    Untracked,
    Typechange,
    Unreadable,
    Conflicted,
}

/// The kind of change that a `git2::Delta` stands for: the variant of the
/// same name.
pub uninterp spec fn delta_kind(delta: git2::Delta) -> DeltaKind;

/// Tells the variants of `git2::Delta` apart: each goes to the kind of the
/// same name.
#[verifier::external_body]
fn kind_of_delta(delta: git2::Delta) -> (kind: DeltaKind)
    ensures
        kind == delta_kind(delta),
{
    match delta {
        git2::Delta::Unmodified => DeltaKind::Unmodified,
        git2::Delta::Added => DeltaKind::Added,
        git2::Delta::Deleted => DeltaKind::Deleted,
        git2::Delta::Modified => DeltaKind::Modified,
        git2::Delta::Renamed => DeltaKind::Renamed,
        git2::Delta::Copied => DeltaKind::Copied,
        git2::Delta::Ignored => DeltaKind::Ignored,
        git2::Delta::Untracked => DeltaKind::Untracked,
        git2::Delta::Typechange => DeltaKind::Typechange,
        git2::Delta::Unreadable => DeltaKind::Unreadable,
        git2::Delta::Conflicted => DeltaKind::Conflicted,
    }
}

impl FileStatus {
    /// The status shown for a kind of change, where untracked files are
    /// not told apart: added, deleted and renamed as they are, everything
    /// else as modified.
    pub open spec fn of_kind(kind: DeltaKind) -> FileStatus {
        match kind {
            DeltaKind::Added => FileStatus::Added,
            DeltaKind::Deleted => FileStatus::Deleted,
            DeltaKind::Modified => FileStatus::Modified,
            DeltaKind::Renamed => FileStatus::Renamed,
            _ => FileStatus::Modified,
        }
    }

    /// The status shown for a kind of change in the working tree: an
    /// untracked file as untracked, everything else as `of_kind` says.
    pub open spec fn of_workdir_kind(kind: DeltaKind) -> FileStatus {
        match kind {
            DeltaKind::Untracked => FileStatus::Untracked,
            _ => Self::of_kind(kind),
        }
    }

    /// The status for a kind of change.
    pub fn from_kind(kind: DeltaKind) -> (status: FileStatus)
        ensures
            status == Self::of_kind(kind),
    {
        match kind {
            DeltaKind::Added => FileStatus::Added,
            DeltaKind::Deleted => FileStatus::Deleted,
            DeltaKind::Modified => FileStatus::Modified,
            DeltaKind::Renamed => FileStatus::Renamed,
            _ => FileStatus::Modified,
        }
    }

    /// The status for a change as the diffing collaborator reports it.
    pub fn from_delta(delta: git2::Delta) -> (status: FileStatus)
        ensures
            status == Self::of_kind(delta_kind(delta)),
    {
        Self::from_kind(kind_of_delta(delta))
    }

    /// The status for a change in the working tree.
    pub fn workdir_status(kind: DeltaKind) -> (status: FileStatus)
        ensures
            status == Self::of_workdir_kind(kind),
    {
        match kind {
            DeltaKind::Untracked => FileStatus::Untracked,
            other => Self::from_kind(other),
        }
    }

    /// The status for a change in the working tree, as the diffing
    /// collaborator reports it.
    pub fn delta_status(delta: git2::Delta) -> (status: FileStatus)
        ensures
            status == Self::of_workdir_kind(delta_kind(delta)),
    {
        Self::workdir_status(kind_of_delta(delta))
    }

    /// The status letter, as a character.
    pub open spec fn icon_char(self) -> char {
        match self {
            FileStatus::Added => 'A',
            FileStatus::Deleted => 'D',
            FileStatus::Modified => 'M',
            FileStatus::Renamed => 'R',
            FileStatus::Untracked => '?',
        }
    }

    /// The one-character marker shown next to a file.
    pub fn icon(&self) -> (s: &'static str)
        ensures
            s@ == seq![self.icon_char()],
    {
        proof {
            reveal_strlit("A");
            reveal_strlit("D");
            reveal_strlit("M");
            reveal_strlit("R");
            reveal_strlit("?");
        }
        let s = match self {
            FileStatus::Added => "A",
            FileStatus::Deleted => "D",
            FileStatus::Modified => "M",
            FileStatus::Renamed => "R",
            FileStatus::Untracked => "?",
        };
        assert(s@ =~= seq![self.icon_char()]);
        s
    }
}

/// The kind of a display row.
#[derive(Debug, Clone, Copy, PartialEq, Eq, Structural)]
pub enum LineType {
    Context,
    Added,
    Deleted,
    HunkHeader,
}

/// One line of one side: its number in that file and its text.
#[derive(Debug)]
pub struct SideLine {
    pub line_no: u32,
    pub content: String,
}

/// A line of one side as plain values.
pub struct SideLineView {
    pub line_no: u32,
    pub content: Seq<char>,
}

impl DeepView for SideLine {
    type V = SideLineView;

    open spec fn deep_view(&self) -> SideLineView {
        SideLineView { line_no: self.line_no, content: self.content@ }
    }
}

impl Clone for SideLine {
    fn clone(&self) -> (r: Self)
        ensures
            r == *self,
    {
        SideLine { line_no: self.line_no, content: self.content.clone() }
    }
}

/// One display row: the old line, the new line, or both.
#[derive(Debug)]
pub struct SideBySideRow {
    pub left: Option<SideLine>,
    pub right: Option<SideLine>,
    pub line_type: LineType,
}

/// A display row as plain values.
pub struct RowView {
    pub left: Option<SideLineView>,
    pub right: Option<SideLineView>,
    pub line_type: LineType,
}

impl DeepView for SideBySideRow {
    type V = RowView;

    open spec fn deep_view(&self) -> RowView {
        RowView {
            left: self.left.deep_view(),
            right: self.right.deep_view(),
            line_type: self.line_type,
        }
    }
}

impl Clone for SideBySideRow {
    fn clone(&self) -> (r: Self)
        ensures
            r == *self,
    {
        let left = match &self.left {
            Some(l) => Some(l.clone()),
            None => None,
        };
        let right = match &self.right {
            Some(l) => Some(l.clone()),
            None => None,
        };
        SideBySideRow { left, right, line_type: self.line_type }
    }
}

/// A contiguous block of the diff: its header and its rows.
#[derive(Debug)]
pub struct DiffHunk {
    pub header: String,
    pub rows: Vec<SideBySideRow>,
}

/// A hunk as plain values.
pub struct HunkView {
    pub header: Seq<char>,
    pub rows: Seq<RowView>,
}

impl DeepView for DiffHunk {
    type V = HunkView;

    open spec fn deep_view(&self) -> HunkView {
        HunkView { header: self.header@, rows: self.rows.deep_view() }
    }
}

impl Clone for DiffHunk {
    fn clone(&self) -> (r: Self)
        ensures
            r.deep_view() == self.deep_view(),
    {
        let mut rows: Vec<SideBySideRow> = Vec::new();
        let mut i: usize = 0;
        while i < self.rows.len()
            invariant
                i <= self.rows.len(),
                rows.deep_view() == self.rows.deep_view().take(i as int),
            decreases self.rows.len() - i,
        {
            let ghost before = rows.deep_view();
            rows.push(self.rows[i].clone());
            assert(rows.deep_view() =~= before.push(self.rows[i as int].deep_view()));
            assert(self.rows.deep_view().take(i + 1) =~= before.push(
                self.rows[i as int].deep_view(),
            ));
            i += 1;
        }
        assert(self.rows.deep_view().take(i as int) =~= self.rows.deep_view());
        DiffHunk { header: self.header.clone(), rows }
    }
}

/// One changed file with its hunks.
#[derive(Debug)]
pub struct FileDiff {
    pub path: String,
    pub status: FileStatus,
    pub hunks: Vec<DiffHunk>,
    pub is_binary: bool,
}

/// The diff of a file as plain values.
pub struct FileView {
    pub path: Seq<char>,
    pub status: FileStatus,
    pub hunks: Seq<HunkView>,
    pub is_binary: bool,
}

impl DeepView for FileDiff {
    type V = FileView;

    open spec fn deep_view(&self) -> FileView {
        FileView {
            path: self.path@,
            status: self.status,
            hunks: self.hunks.deep_view(),
            is_binary: self.is_binary,
        }
    }
}

impl Clone for FileDiff {
    fn clone(&self) -> (r: Self)
        ensures
            r.deep_view() == self.deep_view(),
    {
        let mut hunks: Vec<DiffHunk> = Vec::new();
        let mut i: usize = 0;
        while i < self.hunks.len()
            invariant
                i <= self.hunks.len(),
                hunks.deep_view() == self.hunks.deep_view().take(i as int),
            decreases self.hunks.len() - i,
        {
            let ghost before = hunks.deep_view();
            let h = self.hunks[i].clone();
            hunks.push(h);
            assert(hunks.deep_view() =~= before.push(self.hunks[i as int].deep_view()));
            assert(self.hunks.deep_view().take(i + 1) =~= before.push(
                self.hunks[i as int].deep_view(),
            ));
            i += 1;
        }
        assert(self.hunks.deep_view().take(i as int) =~= self.hunks.deep_view());
        FileDiff {
            path: self.path.clone(),
            status: self.status,
            hunks,
            is_binary: self.is_binary,
        }
    }
}

/// The numbers of lines added and deleted in a diff.
#[derive(Debug, Clone, Copy, PartialEq, Eq, Structural)]
pub struct DiffStats {
    pub additions: usize,
    pub deletions: usize,
}

/// The result of one diff refresh.
#[derive(Debug)]
pub struct DiffState {
    pub files: Vec<FileDiff>,
    pub branch_name: String,
    pub stats: DiffStats,
}

/// One line as the diffing collaborator reports it: the origin tag
/// (`' '`, `'-'`, `'+'` or something else), the line numbers, the text.
#[derive(Debug)]
pub struct RawHunkLine {
    pub origin: char,
    pub old_lineno: Option<u32>,
    pub new_lineno: Option<u32>,
    pub content: String,
}

/// A line of a hunk as the diffing collaborator reports it, as plain values.
pub struct RawLineView {
    pub origin: char,
    pub old_lineno: Option<u32>,
    pub new_lineno: Option<u32>,
    pub content: Seq<char>,
}

impl DeepView for RawHunkLine {
    type V = RawLineView;

    open spec fn deep_view(&self) -> RawLineView {
        RawLineView {
            origin: self.origin,
            old_lineno: self.old_lineno,
            new_lineno: self.new_lineno,
            content: self.content@,
        }
    }
}

impl RawLineView {
    /// The line as it appears on the old side.
    pub open spec fn old_side(self) -> SideLineView {
        SideLineView {
            line_no: match self.old_lineno {
                Some(n) => n,
                None => 0,
            },
            content: self.content,
        }
    }

    /// The line as it appears on the new side.
    pub open spec fn new_side(self) -> SideLineView {
        SideLineView {
            line_no: match self.new_lineno {
                Some(n) => n,
                None => 0,
            },
            content: self.content,
        }
    }
}

/// The first index at or after `from` whose line does not carry `tag`.
pub open spec fn run_end(lines: Seq<RawLineView>, from: int, tag: char) -> int
    decreases lines.len() - from,
{
    if 0 <= from < lines.len() && lines[from].origin == tag {
        run_end(lines, from + 1, tag)
    } else {
        from
    }
}

/// The `j`-th row of a replacement: deletions `[d0, d1)` paired by position
/// with additions `[d1, a1)`.
pub open spec fn paired_row(lines: Seq<RawLineView>, d0: int, d1: int, a1: int, j: int) -> RowView {
    let left = if d0 + j < d1 {
        Some(lines[d0 + j].old_side())
    } else {
        None
    };
    let right = if d1 + j < a1 {
        Some(lines[d1 + j].new_side())
    } else {
        None
    };
    RowView {
        left,
        right,
        line_type: if left is Some {
            LineType::Deleted
        } else {
            LineType::Added
        },
    }
}

/// All rows of a replacement: as many as the longer of the two runs.
pub open spec fn paired_rows(lines: Seq<RawLineView>, d0: int, d1: int, a1: int) -> Seq<RowView> {
    let n = if d1 - d0 >= a1 - d1 {
        d1 - d0
    } else {
        a1 - d1
    };
    Seq::new(n as nat, |j: int| paired_row(lines, d0, d1, a1, j))
}

/// The rows produced for the lines from index `i` on.
pub open spec fn aligned_from(lines: Seq<RawLineView>, i: int) -> Seq<RowView>
    decreases lines.len() - i,
{
    if i < 0 || i >= lines.len() {
        Seq::empty()
    } else if lines[i].origin == ' ' {
        seq![
            RowView {
                left: Some(lines[i].old_side()),
                right: Some(lines[i].new_side()),
                line_type: LineType::Context,
            },
        ] + aligned_from(lines, i + 1)
    } else if lines[i].origin == '-' {
        let d1 = run_end(lines, i, '-');
        let a1 = run_end(lines, d1, '+');
        if i < a1 <= lines.len() {
            paired_rows(lines, i, d1, a1) + aligned_from(lines, a1)
        } else {
            Seq::empty()
        }
    } else if lines[i].origin == '+' {
        seq![
            RowView { left: None, right: Some(lines[i].new_side()), line_type: LineType::Added },
        ] + aligned_from(lines, i + 1)
    } else {
        aligned_from(lines, i + 1)
    }
}

/// The side-by-side rows of a hunk. A context line gives one row with the
/// line on both sides. A run of deletions followed by a run of additions is
/// paired by position; the longer run's tail gives one-sided rows. An addition
/// with no deletion before it gives a right-only row. Any other tag is skipped.
pub open spec fn aligned_rows(lines: Seq<RawLineView>) -> Seq<RowView> {
    aligned_from(lines, 0)
}

/// A run ends inside the lines, holds only lines of its tag, and is not
/// followed by one.
pub proof fn lemma_run_end_bounds(lines: Seq<RawLineView>, from: int, tag: char)
    requires
        0 <= from <= lines.len(),
    ensures
        from <= run_end(lines, from, tag) <= lines.len(),
        forall|k: int| from <= k < run_end(lines, from, tag) ==> lines[k].origin == tag,
        run_end(lines, from, tag) < lines.len() ==> lines[run_end(lines, from, tag)].origin != tag,
    decreases lines.len() - from,
{
    if from < lines.len() && lines[from].origin == tag {
        lemma_run_end_bounds(lines, from + 1, tag);
    }
}

fn side_line(line_no: Option<u32>, content: &String) -> (r: SideLine)
    ensures
        r.content@ == content@,
        r.line_no == match line_no {
            Some(n) => n,
            None => 0,
        },
{
    let n: u32 = match line_no {
        Some(n) => n,
        None => 0,
    };
    SideLine { line_no: n, content: content.clone() }
}

/// Aligns the ordered lines of one hunk into side-by-side rows.
pub fn align_hunk_lines(lines: &Vec<RawHunkLine>) -> (rows: Vec<SideBySideRow>)
    ensures
        rows.deep_view() == aligned_rows(lines.deep_view()),
{
    let ghost spec_lines = lines.deep_view();
    let mut rows: Vec<SideBySideRow> = Vec::new();
    let mut i: usize = 0;
    assert(rows.deep_view() =~= Seq::<RowView>::empty());
    while i < lines.len()
        invariant
            i <= lines.len(),
            spec_lines == lines.deep_view(),
            rows.deep_view() + aligned_from(spec_lines, i as int) == aligned_rows(spec_lines),
        decreases lines.len() - i,
    {
        let ghost before = rows.deep_view();
        let origin = lines[i].origin;
        assert(spec_lines[i as int] == lines[i as int].deep_view());
        if origin == ' ' {
            let row = SideBySideRow {
                left: Some(side_line(lines[i].old_lineno, &lines[i].content)),
                right: Some(side_line(lines[i].new_lineno, &lines[i].content)),
                line_type: LineType::Context,
            };
            rows.push(row);
            assert(rows.deep_view() =~= before.push(row.deep_view()));
            assert(before + aligned_from(spec_lines, i as int) =~= before.push(row.deep_view())
                + aligned_from(spec_lines, i + 1));
            i += 1;
        } else if origin == '-' {
            let del_start = i;
            while i < lines.len() && lines[i].origin == '-'
                invariant
                    del_start <= i <= lines.len(),
                    spec_lines == lines.deep_view(),
                    run_end(spec_lines, del_start as int, '-') == run_end(spec_lines, i as int, '-'),
                decreases lines.len() - i,
            {
                assert(spec_lines[i as int] == lines[i as int].deep_view());
                i += 1;
            }
            let del_end = i;
            assert(i < lines.len() ==> spec_lines[i as int] == lines[i as int].deep_view());
            assert(run_end(spec_lines, del_start as int, '-') == del_end);
            while i < lines.len() && lines[i].origin == '+'
                invariant
                    del_end <= i <= lines.len(),
                    spec_lines == lines.deep_view(),
                    run_end(spec_lines, del_end as int, '+') == run_end(spec_lines, i as int, '+'),
                decreases lines.len() - i,
            {
                assert(spec_lines[i as int] == lines[i as int].deep_view());
                i += 1;
            }
            let add_end = i;
            assert(i < lines.len() ==> spec_lines[i as int] == lines[i as int].deep_view());
            assert(run_end(spec_lines, del_end as int, '+') == add_end);
            let n_del = del_end - del_start;
            let n_add = add_end - del_end;
            let max_len = if n_del >= n_add {
                n_del
            } else {
                n_add
            };
            let ghost pairs = paired_rows(spec_lines, del_start as int, del_end as int, add_end as int);
            let mut j: usize = 0;
            while j < max_len
                invariant
                    j <= max_len,
                    del_start < del_end <= add_end <= lines.len(),
                    n_del == del_end - del_start,
                    n_add == add_end - del_end,
                    max_len == pairs.len(),
                    spec_lines == lines.deep_view(),
                    pairs == paired_rows(
                        spec_lines,
                        del_start as int,
                        del_end as int,
                        add_end as int,
                    ),
                    rows.deep_view() == before + pairs.take(j as int),
                decreases max_len - j,
            {
                let ghost so_far = rows.deep_view();
                let left = if j < n_del {
                    assert(spec_lines[del_start + j] == lines[del_start + j].deep_view());
                    Some(side_line(lines[del_start + j].old_lineno, &lines[del_start + j].content))
                } else {
                    None
                };
                let right = if j < n_add {
                    assert(spec_lines[del_end + j] == lines[del_end + j].deep_view());
                    Some(side_line(lines[del_end + j].new_lineno, &lines[del_end + j].content))
                } else {
                    None
                };
                let line_type = if left.is_some() {
                    LineType::Deleted
                } else {
                    LineType::Added
                };
                let row = SideBySideRow { left, right, line_type };
                rows.push(row);
                assert(row.deep_view() == pairs[j as int]);
                assert(rows.deep_view() =~= so_far.push(row.deep_view()));
                assert(pairs.take(j + 1) =~= pairs.take(j as int).push(pairs[j as int]));
                j += 1;
            }
            assert(pairs.take(max_len as int) =~= pairs);
            assert(before + aligned_from(spec_lines, del_start as int) =~= (before + pairs)
                + aligned_from(spec_lines, add_end as int));
        } else if origin == '+' {
            let row = SideBySideRow {
                left: None,
                right: Some(side_line(lines[i].new_lineno, &lines[i].content)),
                line_type: LineType::Added,
            };
            rows.push(row);
            assert(rows.deep_view() =~= before.push(row.deep_view()));
            assert(before + aligned_from(spec_lines, i as int) =~= before.push(row.deep_view())
                + aligned_from(spec_lines, i + 1));
            i += 1;
        } else {
            i += 1;
        }
    }
    assert(rows.deep_view() + aligned_from(spec_lines, i as int) =~= rows.deep_view());
    rows
}

/// A row as the data model allows it: at least one side is there; a context
/// row shows the same text on both sides; an added row has no old line; a
/// deleted row has its old line, and a new line only when it pairs a
/// replacement.
pub open spec fn row_well_formed(r: RowView) -> bool {
    &&& r.left is Some || r.right is Some
    &&& r.line_type != LineType::HunkHeader
    &&& r.line_type == LineType::Context ==> r.left is Some && r.right is Some
        && r.left->0.content == r.right->0.content
    &&& r.line_type == LineType::Added ==> r.left is None && r.right is Some
    &&& r.line_type == LineType::Deleted ==> r.left is Some
}

proof fn lemma_concat_well_formed(a: Seq<RowView>, b: Seq<RowView>)
    requires
        forall|k: int| 0 <= k < a.len() ==> row_well_formed(#[trigger] a[k]),
        forall|k: int| 0 <= k < b.len() ==> row_well_formed(#[trigger] b[k]),
    ensures
        forall|k: int| 0 <= k < (a + b).len() ==> row_well_formed(#[trigger] (a + b)[k]),
{
    assert forall|k: int| 0 <= k < (a + b).len() implies row_well_formed(#[trigger] (a + b)[k]) by {
        if k < a.len() {
            assert((a + b)[k] == a[k]);
        } else {
            assert((a + b)[k] == b[k - a.len()]);
        }
    }
}

proof fn lemma_aligned_from_well_formed(lines: Seq<RawLineView>, i: int)
    ensures
        forall|k: int|
            0 <= k < aligned_from(lines, i).len() ==> row_well_formed(
                #[trigger] aligned_from(lines, i)[k],
            ),
    decreases lines.len() - i,
{
    if i < 0 || i >= lines.len() {
    } else if lines[i].origin == ' ' {
        lemma_aligned_from_well_formed(lines, i + 1);
        let head = seq![
            RowView {
                left: Some(lines[i].old_side()),
                right: Some(lines[i].new_side()),
                line_type: LineType::Context,
            },
        ];
        lemma_concat_well_formed(head, aligned_from(lines, i + 1));
    } else if lines[i].origin == '-' {
        let d1 = run_end(lines, i, '-');
        lemma_run_end_bounds(lines, i, '-');
        let a1 = run_end(lines, d1, '+');
        lemma_run_end_bounds(lines, d1, '+');
        assert(d1 > i);
        if i < a1 <= lines.len() {
            lemma_aligned_from_well_formed(lines, a1);
            let pairs = paired_rows(lines, i, d1, a1);
            assert forall|k: int| 0 <= k < pairs.len() implies row_well_formed(
                #[trigger] pairs[k],
            ) by {
                assert(pairs[k] == paired_row(lines, i, d1, a1, k));
            }
            lemma_concat_well_formed(pairs, aligned_from(lines, a1));
        }
    } else if lines[i].origin == '+' {
        lemma_aligned_from_well_formed(lines, i + 1);
        let head = seq![
            RowView { left: None, right: Some(lines[i].new_side()), line_type: LineType::Added },
        ];
        lemma_concat_well_formed(head, aligned_from(lines, i + 1));
    } else {
        lemma_aligned_from_well_formed(lines, i + 1);
    }
}

/// Every row the aligner produces is well formed: no row is empty on both
/// sides, and an added row never carries an old line.
pub proof fn lemma_aligned_rows_well_formed(lines: Seq<RawLineView>)
    ensures
        forall|k: int|
            0 <= k < aligned_rows(lines).len() ==> row_well_formed(
                #[trigger] aligned_rows(lines)[k],
            ),
{
    lemma_aligned_from_well_formed(lines, 0);
}

/// Alignment has no hidden state: two runs of `align_hunk_lines` on the
/// same lines give the same rows. Each run's rows are what the function
/// ensures of its result.
pub proof fn lemma_align_deterministic(
    lines: Seq<RawLineView>,
    first: Seq<RowView>,
    second: Seq<RowView>,
)
    requires
        first == aligned_rows(lines),
        second == aligned_rows(lines),
    ensures
        first == second,
{
}

/// What one row adds to the count of added lines: an added row counts, and
/// so does a deleted row that pairs a new line.
pub open spec fn row_additions(r: RowView) -> nat {
    match r.line_type {
        LineType::Added => 1,
        LineType::Deleted => if r.right is Some {
            1
        } else {
            0
        },
        _ => 0,
    }
}

/// What one row adds to the count of deleted lines.
pub open spec fn row_deletions(r: RowView) -> nat {
    if r.line_type == LineType::Deleted {
        1
    } else {
        0
    }
}

/// The number of rows with a new line that is no context.
pub open spec fn rows_additions(rows: Seq<RowView>) -> nat
    decreases rows.len(),
{
    if rows.len() == 0 {
        0
    } else {
        rows_additions(rows.drop_last()) + row_additions(rows.last())
    }
}

/// The number of rows with an old line that is no context.
pub open spec fn rows_deletions(rows: Seq<RowView>) -> nat
    decreases rows.len(),
{
    if rows.len() == 0 {
        0
    } else {
        rows_deletions(rows.drop_last()) + row_deletions(rows.last())
    }
}

/// The number of lines added in the hunks.
pub open spec fn hunks_additions(hunks: Seq<HunkView>) -> nat
    decreases hunks.len(),
{
    if hunks.len() == 0 {
        0
    } else {
        hunks_additions(hunks.drop_last()) + rows_additions(hunks.last().rows)
    }
}

/// The number of lines deleted in the hunks.
pub open spec fn hunks_deletions(hunks: Seq<HunkView>) -> nat
    decreases hunks.len(),
{
    if hunks.len() == 0 {
        0
    } else {
        hunks_deletions(hunks.drop_last()) + rows_deletions(hunks.last().rows)
    }
}

/// Added lines over all files.
pub open spec fn files_additions(files: Seq<FileView>) -> nat
    decreases files.len(),
{
    if files.len() == 0 {
        0
    } else {
        files_additions(files.drop_last()) + hunks_additions(files.last().hunks)
    }
}

/// Deleted lines over all files.
pub open spec fn files_deletions(files: Seq<FileView>) -> nat
    decreases files.len(),
{
    if files.len() == 0 {
        0
    } else {
        files_deletions(files.drop_last()) + hunks_deletions(files.last().hunks)
    }
}

proof fn lemma_hunks_prefix(hunks: Seq<HunkView>, k: int)
    requires
        0 <= k <= hunks.len(),
    ensures
        hunks_additions(hunks.take(k)) <= hunks_additions(hunks),
        hunks_deletions(hunks.take(k)) <= hunks_deletions(hunks),
    decreases hunks.len() - k,
{
    if k < hunks.len() {
        lemma_hunks_prefix(hunks, k + 1);
        assert(hunks.take(k + 1).drop_last() =~= hunks.take(k));
    } else {
        assert(hunks.take(k) =~= hunks);
    }
}

proof fn lemma_files_prefix(files: Seq<FileView>, k: int)
    requires
        0 <= k <= files.len(),
    ensures
        files_additions(files.take(k)) <= files_additions(files),
        files_deletions(files.take(k)) <= files_deletions(files),
    decreases files.len() - k,
{
    if k < files.len() {
        lemma_files_prefix(files, k + 1);
        assert(files.take(k + 1).drop_last() =~= files.take(k));
    } else {
        assert(files.take(k) =~= files);
    }
}

fn count_rows(rows: &Vec<SideBySideRow>) -> (r: (usize, usize))
    ensures
        r.0 == rows_additions(rows.deep_view()),
        r.1 == rows_deletions(rows.deep_view()),
{
    let mut additions: usize = 0;
    let mut deletions: usize = 0;
    let mut i: usize = 0;
    while i < rows.len()
        invariant
            i <= rows.len(),
            additions <= i,
            deletions <= i,
            additions == rows_additions(rows.deep_view().take(i as int)),
            deletions == rows_deletions(rows.deep_view().take(i as int)),
        decreases rows.len() - i,
    {
        assert(rows.deep_view().take(i + 1).drop_last() =~= rows.deep_view().take(i as int));
        assert(rows.deep_view().take(i + 1).last() == rows[i as int].deep_view());
        match rows[i].line_type {
            LineType::Added => {
                additions += 1;
            },
            LineType::Deleted => {
                if rows[i].right.is_some() {
                    additions += 1;
                }
                deletions += 1;
            },
            _ => {},
        }
        i += 1;
    }
    assert(rows.deep_view().take(i as int) =~= rows.deep_view());
    (additions, deletions)
}

/// Counts added and deleted lines over all files. A paired row counts once
/// as a deletion and once as an addition.
pub fn compute_stats(files: &Vec<FileDiff>) -> (stats: DiffStats)
    requires
        files_additions(files.deep_view()) <= usize::MAX,
        files_deletions(files.deep_view()) <= usize::MAX,
    ensures
        stats.additions == files_additions(files.deep_view()),
        stats.deletions == files_deletions(files.deep_view()),
{
    let ghost all = files.deep_view();
    let mut additions: usize = 0;
    let mut deletions: usize = 0;
    let mut f: usize = 0;
    while f < files.len()
        invariant
            f <= files.len(),
            all == files.deep_view(),
            files_additions(all) <= usize::MAX,
            files_deletions(all) <= usize::MAX,
            additions == files_additions(all.take(f as int)),
            deletions == files_deletions(all.take(f as int)),
        decreases files.len() - f,
    {
        let file = &files[f];
        let ghost hunks = file.hunks.deep_view();
        proof {
            lemma_files_prefix(all, f + 1);
            assert(all.take(f + 1).drop_last() =~= all.take(f as int));
            assert(all.take(f + 1).last() == file.deep_view());
        }
        let mut file_add: usize = 0;
        let mut file_del: usize = 0;
        let mut h: usize = 0;
        while h < file.hunks.len()
            invariant
                h <= file.hunks.len(),
                hunks == file.hunks.deep_view(),
                additions + hunks_additions(hunks) <= usize::MAX,
                deletions + hunks_deletions(hunks) <= usize::MAX,
                file_add == hunks_additions(hunks.take(h as int)),
                file_del == hunks_deletions(hunks.take(h as int)),
            decreases file.hunks.len() - h,
        {
            proof {
                lemma_hunks_prefix(hunks, h + 1);
                assert(hunks.take(h + 1).drop_last() =~= hunks.take(h as int));
                assert(hunks.take(h + 1).last() == file.hunks[h as int].deep_view());
            }
            let (a, d) = count_rows(&file.hunks[h].rows);
            file_add += a;
            file_del += d;
            h += 1;
        }
        assert(hunks.take(h as int) =~= hunks);
        additions += file_add;
        deletions += file_del;
        f += 1;
    }
    assert(all.take(f as int) =~= all);
    DiffStats { additions, deletions }
}

impl RowView {
    /// The text the row shows on `side`: that side's line, or nothing.
    pub open spec fn side_text(self, side: DiffSide) -> Seq<char> {
        let line = match side {
            DiffSide::Left => self.left,
            DiffSide::Right => self.right,
        };
        match line {
            Some(l) => l.content,
            None => Seq::empty(),
        }
    }
}

/// The display lines of one hunk on `side`: its header, then one line per row.
pub open spec fn hunk_lines(h: HunkView, side: DiffSide) -> Seq<Seq<char>> {
    seq![h.header] + Seq::new(h.rows.len(), |i: int| h.rows[i].side_text(side))
}

/// The flattened content of a file on `side`: the display lines of its
/// hunks, one hunk after the other. Cursor rows index this sequence.
pub open spec fn flattened(hunks: Seq<HunkView>, side: DiffSide) -> Seq<Seq<char>>
    decreases hunks.len(),
{
    if hunks.len() == 0 {
        Seq::empty()
    } else {
        flattened(hunks.drop_last(), side) + hunk_lines(hunks.last(), side)
    }
}

/// The number of display lines of a file: one per hunk and one per row.
pub open spec fn flat_len(hunks: Seq<HunkView>) -> nat
    decreases hunks.len(),
{
    if hunks.len() == 0 {
        0
    } else {
        flat_len(hunks.drop_last()) + 1 + hunks.last().rows.len()
    }
}

/// The rows at which the hunks start in the flattened content.
pub open spec fn hunk_starts(hunks: Seq<HunkView>) -> Seq<usize>
    decreases hunks.len(),
{
    if hunks.len() == 0 {
        Seq::empty()
    } else {
        hunk_starts(hunks.drop_last()).push(flat_len(hunks.drop_last()) as usize)
    }
}

/// The lines that colouring works on: the flattened content with every
/// hunk header replaced by an empty line.
pub open spec fn highlight_lines(hunks: Seq<HunkView>, side: DiffSide) -> Seq<Seq<char>>
    decreases hunks.len(),
{
    if hunks.len() == 0 {
        Seq::empty()
    } else {
        highlight_lines(hunks.drop_last(), side) + seq![Seq::empty()] + Seq::new(
            hunks.last().rows.len(),
            |i: int| hunks.last().rows[i].side_text(side),
        )
    }
}

/// Colouring works on as many lines as the file has display lines.
pub proof fn lemma_highlight_lines_len(hunks: Seq<HunkView>, side: DiffSide)
    ensures
        highlight_lines(hunks, side).len() == flat_len(hunks),
    decreases hunks.len(),
{
    if hunks.len() > 0 {
        lemma_highlight_lines_len(hunks.drop_last(), side);
    }
}

/// The flattened content has one line per display line.
pub proof fn lemma_flattened_len(hunks: Seq<HunkView>, side: DiffSide)
    ensures
        flattened(hunks, side).len() == flat_len(hunks),
    decreases hunks.len(),
{
    if hunks.len() > 0 {
        lemma_flattened_len(hunks.drop_last(), side);
    }
}

/// The first hunks of a file have no more display lines than the whole file.
pub proof fn lemma_flat_len_prefix(hunks: Seq<HunkView>, k: int)
    requires
        0 <= k <= hunks.len(),
    ensures
        flat_len(hunks.take(k)) <= flat_len(hunks),
    decreases hunks.len() - k,
{
    if k < hunks.len() {
        lemma_flat_len_prefix(hunks, k + 1);
        assert(hunks.take(k + 1).drop_last() =~= hunks.take(k));
    } else {
        assert(hunks.take(k) =~= hunks);
    }
}

/// The text a row shows on `side`.
pub fn side_content(row: &SideBySideRow, side: DiffSide) -> (s: String)
    ensures
        s@ == row.deep_view().side_text(side),
{
    let line = match side {
        DiffSide::Left => &row.left,
        DiffSide::Right => &row.right,
    };
    match line {
        Some(l) => l.content.clone(),
        None => String::new(),
    }
}

/// Flattens the hunks of a file into the display lines of one side.
pub fn content_lines(file: &FileDiff, side: DiffSide) -> (lines: Vec<String>)
    ensures
        lines.deep_view() == flattened(file.deep_view().hunks, side),
        lines.len() == flat_len(file.deep_view().hunks),
{
    let ghost hunks = file.hunks.deep_view();
    let mut lines: Vec<String> = Vec::new();
    let mut h: usize = 0;
    assert(lines.deep_view() =~= flattened(hunks.take(0), side));
    while h < file.hunks.len()
        invariant
            h <= file.hunks.len(),
            hunks == file.hunks.deep_view(),
            lines.deep_view() == flattened(hunks.take(h as int), side),
        decreases file.hunks.len() - h,
    {
        let hunk = &file.hunks[h];
        let ghost hv = hunk.deep_view();
        let ghost before = lines.deep_view();
        lines.push(hunk.header.clone());
        assert(lines.deep_view() =~= before + seq![hv.header]);
        let mut r: usize = 0;
        while r < hunk.rows.len()
            invariant
                r <= hunk.rows.len(),
                hv == hunk.deep_view(),
                lines.deep_view() == before + seq![hv.header] + Seq::new(
                    r as nat,
                    |i: int| hv.rows[i].side_text(side),
                ),
            decreases hunk.rows.len() - r,
        {
            let ghost so_far = lines.deep_view();
            let text = side_content(&hunk.rows[r], side);
            lines.push(text);
            assert(hv.rows[r as int] == hunk.rows[r as int].deep_view());
            assert(lines.deep_view() =~= so_far.push(text@));
            assert(Seq::new((r + 1) as nat, |i: int| hv.rows[i].side_text(side)) =~= Seq::new(
                r as nat,
                |i: int| hv.rows[i].side_text(side),
            ).push(hv.rows[r as int].side_text(side)));
            r += 1;
        }
        proof {
            assert(hunks.take(h + 1).drop_last() =~= hunks.take(h as int));
            assert(hunks.take(h + 1).last() == hv);
            assert(lines.deep_view() =~= before + hunk_lines(hv, side));
        }
        h += 1;
    }
    proof {
        assert(hunks.take(h as int) =~= hunks);
        lemma_flattened_len(hunks, side);
    }
    lines
}

/// What colouring a file takes: the lines of both sides, with empty lines
/// in place of the hunk headers, and the rows at which the hunks start.
pub fn highlight_input(file: &FileDiff) -> (r: (Vec<String>, Vec<String>, Vec<usize>))
    ensures
        r.0.deep_view() == highlight_lines(file.deep_view().hunks, DiffSide::Left),
        r.1.deep_view() == highlight_lines(file.deep_view().hunks, DiffSide::Right),
        r.2@ == hunk_starts(file.deep_view().hunks),
        r.0.len() == r.1.len(),
{
    let ghost hunks = file.hunks.deep_view();
    let mut left: Vec<String> = Vec::new();
    let mut right: Vec<String> = Vec::new();
    let mut starts: Vec<usize> = Vec::new();
    let mut h: usize = 0;
    assert(hunks.take(0) =~= Seq::<HunkView>::empty());
    assert(left.deep_view() =~= highlight_lines(hunks.take(0), DiffSide::Left));
    assert(right.deep_view() =~= highlight_lines(hunks.take(0), DiffSide::Right));
    while h < file.hunks.len()
        invariant
            h <= file.hunks.len(),
            hunks == file.hunks.deep_view(),
            left.deep_view() == highlight_lines(hunks.take(h as int), DiffSide::Left),
            right.deep_view() == highlight_lines(hunks.take(h as int), DiffSide::Right),
            starts@ == hunk_starts(hunks.take(h as int)),
            left.len() == right.len(),
            left.len() == flat_len(hunks.take(h as int)),
        decreases file.hunks.len() - h,
    {
        let hunk = &file.hunks[h];
        let ghost hv = hunk.deep_view();
        let ghost left_before = left.deep_view();
        let ghost right_before = right.deep_view();
        proof {
            assert(hunks.take(h + 1).drop_last() =~= hunks.take(h as int));
            assert(hunks.take(h + 1).last() == hv);
        }
        starts.push(left.len());
        left.push(String::new());
        right.push(String::new());
        assert(left.deep_view() =~= left_before + seq![Seq::<char>::empty()]);
        assert(right.deep_view() =~= right_before + seq![Seq::<char>::empty()]);
        let mut r: usize = 0;
        while r < hunk.rows.len()
            invariant
                r <= hunk.rows.len(),
                hv == hunk.deep_view(),
                left.len() == right.len(),
                left.len() == left_before.len() + 1 + r,
                left.deep_view() == left_before + seq![Seq::<char>::empty()] + Seq::new(
                    r as nat,
                    |i: int| hv.rows[i].side_text(DiffSide::Left),
                ),
                right.deep_view() == right_before + seq![Seq::<char>::empty()] + Seq::new(
                    r as nat,
                    |i: int| hv.rows[i].side_text(DiffSide::Right),
                ),
            decreases hunk.rows.len() - r,
        {
            let ghost l0 = left.deep_view();
            let ghost r0 = right.deep_view();
            let lt = side_content(&hunk.rows[r], DiffSide::Left);
            let rt = side_content(&hunk.rows[r], DiffSide::Right);
            left.push(lt);
            right.push(rt);
            assert(hv.rows[r as int] == hunk.rows[r as int].deep_view());
            assert(left.deep_view() =~= l0.push(lt@));
            assert(right.deep_view() =~= r0.push(rt@));
            assert(Seq::new((r + 1) as nat, |i: int| hv.rows[i].side_text(DiffSide::Left))
                =~= Seq::new(r as nat, |i: int| hv.rows[i].side_text(DiffSide::Left)).push(
                hv.rows[r as int].side_text(DiffSide::Left),
            ));
            assert(Seq::new((r + 1) as nat, |i: int| hv.rows[i].side_text(DiffSide::Right))
                =~= Seq::new(r as nat, |i: int| hv.rows[i].side_text(DiffSide::Right)).push(
                hv.rows[r as int].side_text(DiffSide::Right),
            ));
            r += 1;
        }
        h += 1;
    }
    assert(hunks.take(h as int) =~= hunks);
    (left, right, starts)
}

/// A text without the line feeds at its end.
pub open spec fn without_line_end(text: Seq<char>) -> Seq<char>
    decreases text.len(),
{
    if text.len() > 0 && text.last() == '\n' {
        without_line_end(text.drop_last())
    } else {
        text
    }
}

/// Makes a raw line from what the diffing collaborator reports of it.
/// The line feeds at the end of the text are dropped.
pub fn raw_hunk_line(origin: char, old_lineno: Option<u32>, new_lineno: Option<u32>, text: &str) -> (line:
    RawHunkLine)
    ensures
        line.deep_view() == (RawLineView {
            origin,
            old_lineno,
            new_lineno,
            content: without_line_end(text@),
        }),
{
    let chars = crate::text::chars_of(text);
    let mut end = chars.len();
    assert(chars@.take(end as int) =~= chars@);
    while end > 0 && chars[end - 1] == '\n'
        invariant
            end <= chars.len(),
            without_line_end(chars@.take(end as int)) == without_line_end(chars@),
        decreases end,
    {
        assert(chars@.take(end as int).drop_last() =~= chars@.take(end - 1));
        end -= 1;
    }
    let content = crate::text::string_of_range(&chars, 0, end);
    assert(chars@.subrange(0, end as int) =~= chars@.take(end as int));
    RawHunkLine { origin, old_lineno, new_lineno, content }
}

/// The number of display lines of all files.
pub open spec fn total_lines(files: Seq<FileView>) -> nat
    decreases files.len(),
{
    if files.len() == 0 {
        0
    } else {
        total_lines(files.drop_last()) + flat_len(files.last().hunks)
    }
}

proof fn lemma_rows_counts_bounded(rows: Seq<RowView>)
    ensures
        rows_additions(rows) <= rows.len(),
        rows_deletions(rows) <= rows.len(),
    decreases rows.len(),
{
    if rows.len() > 0 {
        lemma_rows_counts_bounded(rows.drop_last());
    }
}

proof fn lemma_hunks_counts_bounded(hunks: Seq<HunkView>)
    ensures
        hunks_additions(hunks) <= flat_len(hunks),
        hunks_deletions(hunks) <= flat_len(hunks),
    decreases hunks.len(),
{
    if hunks.len() > 0 {
        lemma_hunks_counts_bounded(hunks.drop_last());
        lemma_rows_counts_bounded(hunks.last().rows);
    }
}

/// The counts of added and deleted lines never exceed the number of
/// display lines.
pub proof fn lemma_counts_bounded(files: Seq<FileView>)
    ensures
        files_additions(files) <= total_lines(files),
        files_deletions(files) <= total_lines(files),
    decreases files.len(),
{
    if files.len() > 0 {
        lemma_counts_bounded(files.drop_last());
        lemma_hunks_counts_bounded(files.last().hunks);
    }
}

fn hunk_count(file: &FileDiff) -> (r: Option<usize>)
    ensures
        match r {
            Some(n) => n == flat_len(file.deep_view().hunks),
            None => flat_len(file.deep_view().hunks) > usize::MAX,
        },
{
    let ghost hunks = file.hunks.deep_view();
    let mut total: usize = 0;
    let mut h: usize = 0;
    assert(hunks.take(0) =~= Seq::<HunkView>::empty());
    while h < file.hunks.len()
        invariant
            h <= file.hunks.len(),
            hunks == file.hunks.deep_view(),
            total == flat_len(hunks.take(h as int)),
        decreases file.hunks.len() - h,
    {
        proof {
            lemma_flat_len_prefix(hunks, h + 1);
            assert(hunks.take(h + 1).drop_last() =~= hunks.take(h as int));
            assert(hunks.take(h + 1).last() == file.hunks[h as int].deep_view());
        }
        let rows = file.hunks[h].rows.len();
        let next = match total.checked_add(1) {
            Some(t) => t.checked_add(rows),
            None => None,
        };
        match next {
            Some(t) => {
                total = t;
            },
            None => {
                return None;
            },
        }
        h += 1;
    }
    assert(hunks.take(h as int) =~= hunks);
    Some(total)
}

proof fn lemma_total_lines_prefix(files: Seq<FileView>, k: int)
    requires
        0 <= k <= files.len(),
    ensures
        total_lines(files.take(k)) <= total_lines(files),
    decreases files.len() - k,
{
    if k < files.len() {
        lemma_total_lines_prefix(files, k + 1);
        assert(files.take(k + 1).drop_last() =~= files.take(k));
    } else {
        assert(files.take(k) =~= files);
    }
}

impl DiffState {
    /// Puts a diff together from its files and the name of the branch,
    /// with the counts of added and deleted lines. There is none where the
    /// files hold more display lines than can be counted.
    pub fn assemble(files: Vec<FileDiff>, branch_name: String) -> (r: Option<DiffState>)
        ensures
            r is Some <==> total_lines(files.deep_view()) <= usize::MAX,
            r matches Some(state) ==> {
                &&& state.files == files
                &&& state.branch_name == branch_name
                &&& state.stats.additions == files_additions(files.deep_view())
                &&& state.stats.deletions == files_deletions(files.deep_view())
            },
    {
        let ghost all = files.deep_view();
        let mut total: usize = 0;
        let mut f: usize = 0;
        assert(all.take(0) =~= Seq::<FileView>::empty());
        while f < files.len()
            invariant
                f <= files.len(),
                all == files.deep_view(),
                total == total_lines(all.take(f as int)),
            decreases files.len() - f,
        {
            proof {
                lemma_total_lines_prefix(all, f + 1);
                assert(all.take(f + 1).drop_last() =~= all.take(f as int));
                assert(all.take(f + 1).last() == files[f as int].deep_view());
            }
            let next = match hunk_count(&files[f]) {
                Some(n) => total.checked_add(n),
                None => None,
            };
            match next {
                Some(t) => {
                    total = t;
                },
                None => {
                    return None;
                },
            }
            f += 1;
        }
        proof {
            assert(all.take(f as int) =~= all);
            lemma_counts_bounded(all);
        }
        let stats = compute_stats(&files);
        Some(DiffState { files, branch_name, stats })
    }
}

} // verus!
