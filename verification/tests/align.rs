use vig::cursor::DiffSide;
use vig::diff::{
    align_hunk_lines, compute_stats, content_lines, highlight_input, raw_hunk_line, DeltaKind,
    DiffHunk, DiffState, FileDiff, FileStatus, LineType, RawHunkLine, SideBySideRow,
};

fn raw(origin: char, old: Option<u32>, new: Option<u32>, text: &str) -> RawHunkLine {
    RawHunkLine { origin, old_lineno: old, new_lineno: new, content: text.to_string() }
}

fn left_text(row: &SideBySideRow) -> Option<&str> {
    row.left.as_ref().map(|l| l.content.as_str())
}

fn right_text(row: &SideBySideRow) -> Option<&str> {
    row.right.as_ref().map(|l| l.content.as_str())
}

fn file_of(path: &str, hunks: Vec<DiffHunk>) -> FileDiff {
    FileDiff { path: path.to_string(), status: FileStatus::Modified, hunks, is_binary: false }
}

#[test]
fn replaced_line_pairs_on_one_row() {
    let rows = align_hunk_lines(&vec![
        raw('-', Some(1), None, "old line"),
        raw('+', None, Some(1), "new line"),
    ]);
    assert_eq!(rows.len(), 1);
    assert_eq!(left_text(&rows[0]), Some("old line"));
    assert_eq!(right_text(&rows[0]), Some("new line"));
    assert_eq!(rows[0].line_type, LineType::Deleted);
    assert_eq!(rows[0].left.as_ref().unwrap().line_no, 1);
    assert_eq!(rows[0].right.as_ref().unwrap().line_no, 1);
}

#[test]
fn context_line_shows_on_both_sides() {
    let rows = align_hunk_lines(&vec![raw(' ', Some(7), Some(9), "same")]);
    assert_eq!(rows.len(), 1);
    assert_eq!(left_text(&rows[0]), Some("same"));
    assert_eq!(right_text(&rows[0]), Some("same"));
    assert_eq!(rows[0].left.as_ref().unwrap().line_no, 7);
    assert_eq!(rows[0].right.as_ref().unwrap().line_no, 9);
    assert_eq!(rows[0].line_type, LineType::Context);
}

#[test]
fn longer_deletion_run_leaves_left_only_rows() {
    let rows = align_hunk_lines(&vec![
        raw('-', Some(1), None, "a"),
        raw('-', Some(2), None, "b"),
        raw('-', Some(3), None, "c"),
        raw('+', None, Some(1), "x"),
    ]);
    assert_eq!(rows.len(), 3);
    assert_eq!((left_text(&rows[0]), right_text(&rows[0])), (Some("a"), Some("x")));
    assert_eq!((left_text(&rows[1]), right_text(&rows[1])), (Some("b"), None));
    assert_eq!((left_text(&rows[2]), right_text(&rows[2])), (Some("c"), None));
    assert!(rows.iter().all(|r| r.line_type == LineType::Deleted));
}

#[test]
fn longer_addition_run_leaves_right_only_rows() {
    let rows = align_hunk_lines(&vec![
        raw('-', Some(1), None, "a"),
        raw('+', None, Some(1), "x"),
        raw('+', None, Some(2), "y"),
    ]);
    assert_eq!(rows.len(), 2);
    assert_eq!((left_text(&rows[0]), right_text(&rows[0])), (Some("a"), Some("x")));
    assert_eq!(rows[0].line_type, LineType::Deleted);
    assert_eq!((left_text(&rows[1]), right_text(&rows[1])), (None, Some("y")));
    assert_eq!(rows[1].line_type, LineType::Added);
}

#[test]
fn additions_without_deletions_are_right_only() {
    let rows = align_hunk_lines(&vec![
        raw(' ', Some(1), Some(1), "ctx"),
        raw('+', None, Some(2), "x"),
        raw('+', None, Some(3), "y"),
    ]);
    assert_eq!(rows.len(), 3);
    assert_eq!(rows[1].line_type, LineType::Added);
    assert!(rows[1].left.is_none());
    assert_eq!(right_text(&rows[2]), Some("y"));
    assert!(rows[2].left.is_none());
}

#[test]
fn additions_before_deletions_are_not_paired() {
    let rows = align_hunk_lines(&vec![
        raw('+', None, Some(1), "x"),
        raw('-', Some(1), None, "a"),
    ]);
    assert_eq!(rows.len(), 2);
    assert_eq!((left_text(&rows[0]), right_text(&rows[0])), (None, Some("x")));
    assert_eq!((left_text(&rows[1]), right_text(&rows[1])), (Some("a"), None));
}

#[test]
fn other_origins_are_skipped_and_missing_numbers_are_zero() {
    let rows = align_hunk_lines(&vec![
        raw('\\', None, None, " No newline at end of file"),
        raw(' ', None, None, "ctx"),
        raw('=', None, None, "x"),
    ]);
    assert_eq!(rows.len(), 1);
    assert_eq!(rows[0].left.as_ref().unwrap().line_no, 0);
    assert_eq!(rows[0].right.as_ref().unwrap().line_no, 0);
}

#[test]
fn empty_hunk_gives_no_rows() {
    assert!(align_hunk_lines(&Vec::new()).is_empty());
}

#[test]
fn aligning_twice_gives_the_same_rows() {
    let lines = vec![
        raw(' ', Some(1), Some(1), "fn main() {"),
        raw('-', Some(2), None, "    old();"),
        raw('-', Some(3), None, "    older();"),
        raw('+', None, Some(2), "    new();"),
        raw(' ', Some(4), Some(3), "}"),
        raw('+', None, Some(4), "// tail"),
    ];
    let first = align_hunk_lines(&lines);
    let second = align_hunk_lines(&lines);
    assert_eq!(first.len(), second.len());
    for (a, b) in first.iter().zip(second.iter()) {
        assert_eq!(left_text(a), left_text(b));
        assert_eq!(right_text(a), right_text(b));
        assert_eq!(a.line_type, b.line_type);
        assert_eq!(a.left.as_ref().map(|l| l.line_no), b.left.as_ref().map(|l| l.line_no));
        assert_eq!(a.right.as_ref().map(|l| l.line_no), b.right.as_ref().map(|l| l.line_no));
    }
}

#[test]
fn every_row_has_a_side_and_added_rows_have_no_left() {
    let lines = vec![
        raw('-', Some(1), None, "a"),
        raw('+', None, Some(1), "b"),
        raw('+', None, Some(2), "c"),
        raw(' ', Some(2), Some(3), "d"),
        raw('+', None, Some(4), "e"),
        raw('-', Some(3), None, "f"),
        raw('-', Some(4), None, "g"),
    ];
    let rows = align_hunk_lines(&lines);
    assert_eq!(rows.len(), 6);
    for row in &rows {
        assert!(row.left.is_some() || row.right.is_some());
        if row.line_type == LineType::Added {
            assert!(row.left.is_none());
        }
        if row.line_type == LineType::Deleted {
            assert!(row.left.is_some());
        }
        assert_ne!(row.line_type, LineType::HunkHeader);
    }
}

#[test]
fn stats_count_paired_rows_twice() {
    let rows = align_hunk_lines(&vec![
        raw('-', Some(1), None, "a"),
        raw('-', Some(2), None, "b"),
        raw('+', None, Some(1), "x"),
        raw(' ', Some(3), Some(2), "c"),
        raw('+', None, Some(3), "y"),
    ]);
    let files = vec![file_of("a.rs", vec![DiffHunk { header: "@@".to_string(), rows }])];
    let stats = compute_stats(&files);
    assert_eq!(stats.additions, 2);
    assert_eq!(stats.deletions, 2);
    assert_eq!(compute_stats(&Vec::new()).additions, 0);
    assert_eq!(compute_stats(&Vec::new()).deletions, 0);
}

#[test]
fn assembled_diff_carries_files_branch_and_stats() {
    let rows = align_hunk_lines(&vec![raw('+', None, Some(1), "x")]);
    let files = vec![file_of("a.rs", vec![DiffHunk { header: "@@".to_string(), rows }])];
    let state = DiffState::assemble(files, "main".to_string()).unwrap();
    assert_eq!(state.branch_name, "main");
    assert_eq!(state.files.len(), 1);
    assert_eq!(state.stats.additions, 1);
    assert_eq!(state.stats.deletions, 0);
}

#[test]
fn flattening_puts_headers_before_rows() {
    let h1 = DiffHunk {
        header: "@@ -1 +1 @@".to_string(),
        rows: align_hunk_lines(&vec![
            raw('-', Some(1), None, "old line"),
            raw('+', None, Some(1), "new line"),
        ]),
    };
    let h2 = DiffHunk {
        header: "@@ -9 +9,2 @@".to_string(),
        rows: align_hunk_lines(&vec![
            raw(' ', Some(9), Some(9), "ctx"),
            raw('+', None, Some(10), "more"),
        ]),
    };
    let file = file_of("a.rs", vec![h1, h2]);
    assert_eq!(
        content_lines(&file, DiffSide::Left),
        vec!["@@ -1 +1 @@", "old line", "@@ -9 +9,2 @@", "ctx", ""]
    );
    assert_eq!(
        content_lines(&file, DiffSide::Right),
        vec!["@@ -1 +1 @@", "new line", "@@ -9 +9,2 @@", "ctx", "more"]
    );
    let (left, right, starts) = highlight_input(&file);
    assert_eq!(left, vec!["", "old line", "", "ctx", ""]);
    assert_eq!(right, vec!["", "new line", "", "ctx", "more"]);
    assert_eq!(starts, vec![0, 2]);
    assert!(content_lines(&file_of("b.rs", Vec::new()), DiffSide::Left).is_empty());
}

#[test]
fn raw_line_drops_line_feeds_at_the_end() {
    let line = raw_hunk_line('+', None, Some(3), "text\n");
    assert_eq!(line.content, "text");
    assert_eq!(line.origin, '+');
    assert_eq!(line.new_lineno, Some(3));
    assert_eq!(line.old_lineno, None);
    assert_eq!(raw_hunk_line(' ', Some(1), Some(1), "a\n\n").content, "a");
    assert_eq!(raw_hunk_line(' ', Some(1), Some(1), "a\nb").content, "a\nb");
    assert_eq!(raw_hunk_line(' ', Some(1), Some(1), "\n").content, "");
}

#[test]
fn status_of_a_delta() {
    assert_eq!(FileStatus::from_delta(git2::Delta::Added), FileStatus::Added);
    assert_eq!(FileStatus::from_delta(git2::Delta::Deleted), FileStatus::Deleted);
    assert_eq!(FileStatus::from_delta(git2::Delta::Modified), FileStatus::Modified);
    assert_eq!(FileStatus::from_delta(git2::Delta::Renamed), FileStatus::Renamed);
    assert_eq!(FileStatus::from_delta(git2::Delta::Untracked), FileStatus::Modified);
    assert_eq!(FileStatus::from_delta(git2::Delta::Copied), FileStatus::Modified);
    assert_eq!(FileStatus::delta_status(git2::Delta::Untracked), FileStatus::Untracked);
    assert_eq!(FileStatus::delta_status(git2::Delta::Added), FileStatus::Added);
    assert_eq!(FileStatus::delta_status(git2::Delta::Typechange), FileStatus::Modified);
    assert_eq!(FileStatus::workdir_status(DeltaKind::Conflicted), FileStatus::Modified);
}

#[test]
fn status_icons() {
    assert_eq!(FileStatus::Added.icon(), "A");
    assert_eq!(FileStatus::Deleted.icon(), "D");
    assert_eq!(FileStatus::Modified.icon(), "M");
    assert_eq!(FileStatus::Renamed.icon(), "R");
    assert_eq!(FileStatus::Untracked.icon(), "?");
}
