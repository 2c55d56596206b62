use vig::cursor::{CursorPos, DiffSide, DiffViewMode};
use vig::diff::{align_hunk_lines, DiffHunk, FileDiff, FileStatus, LineType, RawHunkLine, SideLine};
use vig::modal::DiffViewState;
use vig::rows::{build_side_by_side_lines, draw_header, draw_side, draw_statusline, gutter};
use vig::search::{SearchMatch, SearchState};
use vig::syntax::Rgb;
use vig::view::{build_selection_info, CellStyle, SearchHighlightInfo, StyledRun, Tint};

fn styled(text: &str, fg: Option<Tint>, bg: Option<Tint>, bold: bool) -> StyledRun {
    StyledRun { text: text.to_string(), style: CellStyle { fg, bg, bold } }
}

fn gray(text: &str) -> StyledRun {
    styled(text, Some(Tint::DarkGray), None, false)
}

fn side_line(line_no: u32, content: &str) -> SideLine {
    SideLine { line_no, content: content.to_string() }
}

fn raw(origin: char, old: Option<u32>, new: Option<u32>, content: &str) -> RawHunkLine {
    RawHunkLine { origin, old_lineno: old, new_lineno: new, content: content.to_string() }
}

fn small_file() -> FileDiff {
    let rows = align_hunk_lines(&vec![
        raw(' ', Some(1), Some(1), "fn main() {"),
        raw('-', Some(2), None, "old"),
        raw('+', None, Some(2), "new"),
        raw('+', None, Some(3), "more"),
    ]);
    FileDiff {
        path: "src/main.rs".to_string(),
        status: FileStatus::Modified,
        hunks: vec![DiffHunk { header: "@@ -1,2 +1,3 @@".to_string(), rows }],
        is_binary: false,
    }
}

fn normal_at(row: usize, col: usize, side: DiffSide) -> DiffViewState {
    let mut s = DiffViewState::new();
    s.mode = DiffViewMode::Normal;
    s.cursor_pos = CursorPos { row, col, side };
    s
}

fn texts(runs: &[StyledRun]) -> String {
    runs.iter().map(|r| r.text.as_str()).collect()
}

#[test]
fn gutter_is_right_aligned_in_four_columns() {
    assert_eq!(gutter(0), "   0 ");
    assert_eq!(gutter(7), "   7 ");
    assert_eq!(gutter(42), "  42 ");
    assert_eq!(gutter(999), " 999 ");
    assert_eq!(gutter(1000), "1000 ");
    assert_eq!(gutter(12345), "12345 ");
    assert_eq!(gutter(u32::MAX), "4294967295 ");
}

#[test]
fn a_missing_side_is_blank() {
    let runs = draw_side(None, LineType::Added, true, 7, 0, 3, &None, None, &None);
    assert_eq!(runs, vec![styled("       ", None, None, false)]);
    let none = draw_side(None, LineType::Added, true, 0, 0, 3, &None, None, &None);
    assert_eq!(texts(&none), "");
}

#[test]
fn a_plain_side_has_gutter_and_content() {
    let line = side_line(12, "let x = 1;");
    let runs = draw_side(Some(&line), LineType::Context, true, 12, 0, 1, &None, None, &None);
    assert_eq!(runs, vec![gray("  12 "), styled("let x =", Some(Tint::Reset), None, false)]);
    let scrolled = draw_side(Some(&line), LineType::Context, true, 12, 4, 1, &None, None, &None);
    assert_eq!(scrolled, vec![gray("  12 "), styled("x = 1; ", Some(Tint::Reset), None, false)]);
    let added = draw_side(Some(&line), LineType::Added, false, 9, 0, 1, &None, None, &None);
    assert_eq!(
        added,
        vec![gray("  12 "), styled("let ", Some(Tint::Green), Some(Tint::Rgb(0, 40, 0)), false)]
    );
    let narrow = draw_side(Some(&line), LineType::Context, true, 3, 0, 1, &None, None, &None);
    assert_eq!(narrow, vec![gray("  12 ")]);
}

#[test]
fn a_side_takes_its_syntax_colours() {
    let line = side_line(1, "ab");
    let colors = vec![Rgb { r: 1, g: 2, b: 3 }, Rgb { r: 4, g: 5, b: 6 }];
    let runs = draw_side(Some(&line), LineType::Context, true, 8, 0, 1, &None, Some(&colors), &None);
    assert_eq!(
        runs,
        vec![
            gray("   1 "),
            styled("a", Some(Tint::Rgb(1, 2, 3)), None, false),
            styled("b", Some(Tint::Rgb(4, 5, 6)), None, false),
            styled(" ", Some(Tint::Reset), None, false),
        ]
    );
}

#[test]
fn the_cursor_is_drawn_on_its_own_side_only() {
    let line = side_line(1, "abc");
    let sel = build_selection_info(&normal_at(1, 1, DiffSide::Left));
    let left = draw_side(Some(&line), LineType::Context, true, 8, 0, 1, &sel, None, &None);
    assert_eq!(
        left,
        vec![
            gray("   1 "),
            styled("a", Some(Tint::Reset), None, false),
            styled("b", Some(Tint::Black), Some(Tint::White), false),
            styled("c", Some(Tint::Reset), None, false),
        ]
    );
    let right = draw_side(Some(&line), LineType::Context, false, 8, 0, 1, &sel, None, &None);
    assert_eq!(right, vec![gray("   1 "), styled("abc", Some(Tint::Reset), None, false)]);
    let other_row = draw_side(Some(&line), LineType::Context, true, 8, 0, 2, &sel, None, &None);
    assert_eq!(other_row, vec![gray("   1 "), styled("abc", Some(Tint::Reset), None, false)]);
}

#[test]
fn headers_are_bold_cyan_and_filled_to_the_pane() {
    let plain = draw_header("@@ -1 +1 @@", 0, 14, 0, &None, &None, true);
    assert_eq!(plain, vec![styled("@@ -1 +1 @@   ", Some(Tint::Cyan), None, true)]);
    let cut = draw_header("@@ -1 +1 @@", 0, 5, 3, &None, &None, true);
    assert_eq!(cut, vec![styled("@@ -1", Some(Tint::Cyan), None, true)]);
    let sel = build_selection_info(&normal_at(0, 0, DiffSide::Right));
    let other = draw_header("@@ -1 +1 @@", 0, 5, 0, &sel, &None, true);
    assert_eq!(other, vec![styled("@@ -1", Some(Tint::Cyan), None, true)]);
    let own = draw_header("@@ -1 +1 @@", 0, 5, 0, &sel, &None, false);
    assert_eq!(
        own,
        vec![
            styled("@", Some(Tint::Black), Some(Tint::White), true),
            styled("@ -1", Some(Tint::Cyan), None, true),
        ]
    );
}

#[test]
fn a_file_is_drawn_row_by_row() {
    let file = small_file();
    let none: Vec<Vec<Rgb>> = Vec::new();
    let (left, right) = build_side_by_side_lines(&file, 10, 10, 0, &None, &none, &none, &None);
    assert_eq!(left.len(), 4);
    assert_eq!(right.len(), 4);
    assert_eq!(texts(&left[0]), "@@ -1,2 +1");
    assert_eq!(texts(&left[1]), "   1 fn ma");
    assert_eq!(texts(&left[2]), "   2 old  ");
    assert_eq!(texts(&left[3]), "          ");
    assert_eq!(texts(&right[1]), "   1 fn ma");
    assert_eq!(texts(&right[2]), "   2 new  ");
    assert_eq!(texts(&right[3]), "   3 more ");
    assert_eq!(left[2][1].style, CellStyle { fg: Some(Tint::Red), bg: Some(Tint::Rgb(40, 0, 0)), bold: false });
    assert_eq!(
        right[2][1].style,
        CellStyle { fg: Some(Tint::Green), bg: Some(Tint::Rgb(0, 40, 0)), bold: false }
    );
}

#[test]
fn colours_and_matches_go_to_their_rows() {
    let file = small_file();
    let mut left_colors: Vec<Vec<Rgb>> = vec![Vec::new(), vec![Rgb { r: 9, g: 9, b: 9 }; 2]];
    left_colors.push(Vec::new());
    let none: Vec<Vec<Rgb>> = Vec::new();
    let mut search = SearchState::new();
    search.query = Some("new".to_string());
    search.matches = vec![SearchMatch::DiffLine { row: 2, col_start: 0, col_end: 3, side: DiffSide::Right }];
    search.current_match_idx = Some(0);
    let hl = SearchHighlightInfo::from_search(&search);
    let (left, right) = build_side_by_side_lines(&file, 10, 10, 0, &None, &left_colors, &none, &hl);
    assert_eq!(left[1][1], styled("fn", Some(Tint::Rgb(9, 9, 9)), None, false));
    assert_eq!(left[1][2], styled(" ma", Some(Tint::Reset), None, false));
    assert_eq!(right[2][1], styled("new", Some(Tint::Black), Some(Tint::Rgb(200, 120, 0)), false));
    assert_eq!(texts(&left[2]), "   2 old  ");
    assert_eq!(left[2].len(), 2);
}

#[test]
fn a_file_without_hunks_shows_a_notice() {
    let file = FileDiff {
        path: "a".to_string(),
        status: FileStatus::Modified,
        hunks: Vec::new(),
        is_binary: false,
    };
    let none: Vec<Vec<Rgb>> = Vec::new();
    let (left, right) = build_side_by_side_lines(&file, 10, 10, 0, &None, &none, &none, &None);
    assert_eq!(left, vec![vec![gray("  No changes")]]);
    assert_eq!(right, vec![Vec::<StyledRun>::new()]);
}

#[test]
fn the_status_line_fills_the_width() {
    let label = |t: &str| styled(t, Some(Tint::White), Some(Tint::Rgb(50, 50, 50)), false);
    let mut s = normal_at(4, 2, DiffSide::Right);
    s.count = Some(12);
    s.pending_key = Some('g');
    let runs = draw_statusline(&s, "src/main.rs", 40, 40);
    assert_eq!(
        runs,
        vec![
            styled(" NORMAL ", Some(Tint::Black), Some(Tint::Cyan), false),
            label(" rs "),
            label(" RIGHT "),
            styled("           ", None, Some(Tint::Rgb(30, 30, 30)), false),
            styled(" 12g ", Some(Tint::Yellow), Some(Tint::Rgb(30, 30, 30)), false),
            label(" 5:3 "),
        ]
    );
    assert_eq!(texts(&runs).chars().count(), 40);

    let scroll = DiffViewState::new();
    let runs = draw_statusline(&scroll, "Makefile", 0, 10);
    assert_eq!(
        runs,
        vec![
            styled(" SCROLL ", Some(Tint::Black), Some(Tint::DarkGray), false),
            label(" Makefile "),
            styled("", None, Some(Tint::Rgb(30, 30, 30)), false),
            label(" Empty "),
        ]
    );

    let mut visual = normal_at(0, 0, DiffSide::Left);
    visual.mode = DiffViewMode::VisualLine;
    let runs = draw_statusline(&visual, "a/very_long_extension.abcdefghijkl", 5, 30);
    assert_eq!(runs[0], styled(" V-LINE ", Some(Tint::Black), Some(Tint::Magenta), false));
    assert_eq!(runs[1], label(" LEFT "));
    assert_eq!(runs[2], styled("           ", None, Some(Tint::Rgb(30, 30, 30)), false));
    assert_eq!(runs[3], label(" 1:1 "));
}
