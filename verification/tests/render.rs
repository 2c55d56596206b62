use vig::cursor::{CursorPos, DiffSide, DiffViewMode};
use vig::dialog::wrap_text;
use vig::diff::LineType;
use vig::modal::DiffViewState;
use vig::order::{comes_before, stable_order};
use vig::repository::{
    branch_order, epoch_to_date, is_git_internal, needs_refresh, reflog_entry, short_hash,
    update_failure, BranchInfo, UpdateFailure,
};
use vig::search::{SearchMatch, SearchState};
use vig::syntax::Rgb;
use vig::view::{
    build_highlighted_spans, build_selection_info, build_syntax_spans, filetype, group_runs,
    is_in_selection,
    line_colors, pad_to_width, position_info, scroll_content, showcmd, CellStyle,
    SearchHighlightInfo, SelectionInfo, StyledRun, Tint,
};

fn at(row: usize, col: usize) -> CursorPos {
    CursorPos { row, col, side: DiffSide::Left }
}

fn state(mode: DiffViewMode, cursor: CursorPos, anchor: Option<CursorPos>) -> DiffViewState {
    let mut s = DiffViewState::new();
    s.mode = mode;
    s.cursor_pos = cursor;
    s.visual_anchor = anchor;
    s
}

fn plain(fg: Tint) -> CellStyle {
    CellStyle { fg: Some(fg), bg: None, bold: false }
}

fn run(text: &str, fg: Tint, bg: Option<Tint>) -> StyledRun {
    StyledRun { text: text.to_string(), style: CellStyle { fg: Some(fg), bg, bold: false } }
}

#[test]
fn padding_and_cutting() {
    assert_eq!(pad_to_width("abc", 5), "abc  ");
    assert_eq!(pad_to_width("abcdef", 4), "abcd");
    assert_eq!(pad_to_width("abc", 3), "abc");
    assert_eq!(pad_to_width("", 2), "  ");
    assert_eq!(pad_to_width("é→", 3), "é→ ");
    assert_eq!(pad_to_width("abc", 0), "");
    assert_eq!(scroll_content("hello world", 6, 3), "wor");
    assert_eq!(scroll_content("hello world", 6, 30), "world");
    assert_eq!(scroll_content("hello", 9, 3), "");
    assert_eq!(scroll_content("hello", 0, 0), "");
    assert_eq!(scroll_content("hello", 2, usize::MAX), "llo");
}

#[test]
fn selection_to_draw() {
    assert_eq!(build_selection_info(&state(DiffViewMode::Scroll, at(1, 1), Some(at(0, 0)))), None);
    assert_eq!(build_selection_info(&state(DiffViewMode::Visual, at(1, 1), None)), None);
    assert_eq!(
        build_selection_info(&state(DiffViewMode::Normal, at(1, 1), None)),
        Some(SelectionInfo { start: at(1, 1), end: at(1, 1), mode: DiffViewMode::Normal, cursor: at(1, 1) })
    );
    assert_eq!(
        build_selection_info(&state(DiffViewMode::Visual, at(1, 1), Some(at(2, 0)))),
        Some(SelectionInfo { start: at(1, 1), end: at(2, 0), mode: DiffViewMode::Visual, cursor: at(1, 1) })
    );
    assert_eq!(
        build_selection_info(&state(DiffViewMode::VisualLine, at(3, 4), Some(at(1, 9)))),
        Some(SelectionInfo {
            start: at(1, 0),
            end: at(3, usize::MAX),
            mode: DiffViewMode::VisualLine,
            cursor: at(3, 4),
        })
    );
}

#[test]
fn cells_of_the_selection() {
    let visual = build_selection_info(&state(DiffViewMode::Visual, at(3, 2), Some(at(1, 5)))).unwrap();
    assert!(!is_in_selection(0, 9, &visual));
    assert!(!is_in_selection(1, 4, &visual));
    assert!(is_in_selection(1, 5, &visual));
    assert!(is_in_selection(1, 500, &visual));
    assert!(is_in_selection(2, 0, &visual));
    assert!(is_in_selection(3, 2, &visual));
    assert!(!is_in_selection(3, 3, &visual));
    assert!(!is_in_selection(4, 0, &visual));
    let one = build_selection_info(&state(DiffViewMode::Visual, at(1, 2), Some(at(1, 4)))).unwrap();
    assert!(!is_in_selection(1, 1, &one));
    assert!(is_in_selection(1, 2, &one) && is_in_selection(1, 4, &one));
    assert!(!is_in_selection(1, 5, &one));
    let lines = build_selection_info(&state(DiffViewMode::VisualLine, at(1, 2), Some(at(2, 4)))).unwrap();
    assert!(!is_in_selection(0, 0, &lines));
    assert!(is_in_selection(1, 0, &lines) && is_in_selection(2, 900, &lines));
    assert!(!is_in_selection(3, 0, &lines));
    let normal = build_selection_info(&state(DiffViewMode::Normal, at(1, 2), None)).unwrap();
    assert!(!is_in_selection(1, 2, &normal));
}

fn search_with_matches() -> SearchState {
    let mut s = SearchState::new();
    s.query = Some("x".to_string());
    s.matches = vec![
        SearchMatch::DiffLine { row: 1, col_start: 2, col_end: 4, side: DiffSide::Left },
        SearchMatch::TreeEntry(1),
        SearchMatch::DiffLine { row: 1, col_start: 3, col_end: 6, side: DiffSide::Left },
        SearchMatch::DiffLine { row: 1, col_start: 0, col_end: 2, side: DiffSide::Right },
        SearchMatch::DiffLine { row: 5, col_start: 0, col_end: 1, side: DiffSide::Left },
    ];
    s.current_match_idx = Some(2);
    s
}

#[test]
fn search_highlights_by_cell() {
    let info = SearchHighlightInfo::from_search(&search_with_matches()).unwrap();
    assert_eq!(info.get_highlight(1, 1, true), None);
    assert_eq!(info.get_highlight(1, 2, true), Some(false));
    assert_eq!(info.get_highlight(1, 3, true), Some(false));
    assert_eq!(info.get_highlight(1, 4, true), Some(true));
    assert_eq!(info.get_highlight(1, 5, true), Some(true));
    assert_eq!(info.get_highlight(1, 6, true), None);
    assert_eq!(info.get_highlight(1, 1, false), Some(false));
    assert_eq!(info.get_highlight(1, 2, false), None);
    assert_eq!(info.get_highlight(5, 0, true), Some(false));
    assert_eq!(info.get_highlight(5, 0, false), None);
    assert_eq!(info.get_highlight(2, 0, true), None);
    let mut none = search_with_matches();
    none.query = None;
    assert!(SearchHighlightInfo::from_search(&none).is_none());
    none.query = Some(String::new());
    assert!(SearchHighlightInfo::from_search(&none).is_none());
    none.query = Some("x".to_string());
    none.matches.clear();
    assert!(SearchHighlightInfo::from_search(&none).is_none());
}

#[test]
fn row_colours() {
    assert_eq!(line_colors(LineType::Context, true), (Tint::Reset, None));
    assert_eq!(line_colors(LineType::Added, true), (Tint::Reset, Some(Tint::Rgb(0, 40, 0))));
    assert_eq!(line_colors(LineType::Added, false), (Tint::Green, Some(Tint::Rgb(0, 40, 0))));
    assert_eq!(line_colors(LineType::Deleted, true), (Tint::Red, Some(Tint::Rgb(40, 0, 0))));
    assert_eq!(line_colors(LineType::Deleted, false), (Tint::Green, Some(Tint::Rgb(0, 40, 0))));
    assert_eq!(line_colors(LineType::HunkHeader, false), (Tint::Cyan, None));
}

#[test]
fn cells_group_into_runs() {
    let a = plain(Tint::Red);
    let b = plain(Tint::Green);
    let runs = group_runs(&vec![('x', a), ('y', a), ('z', b), ('w', a)]);
    assert_eq!(runs, vec![run("xy", Tint::Red, None), run("z", Tint::Green, None), run("w", Tint::Red, None)]);
    assert!(group_runs(&Vec::new()).is_empty());
}

#[test]
fn runs_with_syntax_colours_and_search() {
    let red = Rgb { r: 200, g: 0, b: 0 };
    let blue = Rgb { r: 0, g: 0, b: 200 };
    let colors = vec![red, red, blue, blue, blue];
    let runs = build_syntax_spans("hello", 7, 0, plain(Tint::Reset), &colors, &None, 0, true);
    assert_eq!(
        runs,
        vec![
            run("he", Tint::Rgb(200, 0, 0), None),
            run("llo", Tint::Rgb(0, 0, 200), None),
            run("  ", Tint::Reset, None),
        ]
    );
    let scrolled = build_syntax_spans("hello", 3, 1, plain(Tint::Reset), &colors, &None, 0, true);
    assert_eq!(scrolled, vec![run("e", Tint::Rgb(200, 0, 0), None), run("ll", Tint::Rgb(0, 0, 200), None)]);
    let info = SearchHighlightInfo::from_search(&search_with_matches());
    let found = build_syntax_spans("abcdefgh", 8, 0, plain(Tint::Red), &Vec::new(), &info, 1, true);
    assert_eq!(
        found,
        vec![
            run("ab", Tint::Red, None),
            run("cd", Tint::Red, Some(Tint::Rgb(60, 60, 0))),
            run("ef", Tint::Black, Some(Tint::Rgb(200, 120, 0))),
            run("gh", Tint::Red, None),
        ]
    );
    assert!(build_syntax_spans("abc", 0, 0, plain(Tint::Red), &Vec::new(), &None, 0, true).is_empty());
}

#[test]
fn runs_with_cursor_and_selection() {
    let sel = build_selection_info(&state(DiffViewMode::Visual, at(0, 3), Some(at(0, 1)))).unwrap();
    let runs = build_highlighted_spans("hello", 0, 6, 0, &sel, plain(Tint::Reset), None, &None, true);
    let selected = Some(Tint::Rgb(60, 60, 100));
    assert_eq!(
        runs,
        vec![
            run("h", Tint::Reset, None),
            run("el", Tint::Reset, selected),
            run("l", Tint::Black, Some(Tint::White)),
            run("o ", Tint::Reset, None),
        ]
    );
    let other_row = build_highlighted_spans("hello", 1, 5, 0, &sel, plain(Tint::Reset), None, &None, true);
    assert_eq!(other_row, vec![run("hello", Tint::Reset, None)]);
    let green = Rgb { r: 0, g: 9, b: 0 };
    let colors = vec![green; 5];
    let info = SearchHighlightInfo::from_search(&search_with_matches());
    let normal = build_selection_info(&state(DiffViewMode::Normal, at(1, 0), None)).unwrap();
    let runs = build_highlighted_spans(
        "abcdefgh",
        1,
        8,
        0,
        &normal,
        plain(Tint::Reset),
        Some(&colors),
        &info,
        true,
    );
    assert_eq!(
        runs,
        vec![
            run("a", Tint::Black, Some(Tint::White)),
            run("b", Tint::Rgb(0, 9, 0), None),
            run("cd", Tint::Rgb(0, 9, 0), Some(Tint::Rgb(60, 60, 0))),
            run("ef", Tint::Black, Some(Tint::Rgb(200, 120, 0))),
            run("gh", Tint::Reset, None),
        ]
    );
}

#[test]
fn status_line_texts() {
    let mut s = DiffViewState::new();
    assert_eq!(position_info(&s, 0), "Empty");
    s.view_height = 10;
    assert_eq!(position_info(&s, 10), "All");
    assert_eq!(position_info(&s, 50), "Top");
    s.scroll_y = 40;
    assert_eq!(position_info(&s, 50), "Bot");
    s.scroll_y = 20;
    assert_eq!(position_info(&s, 50), "40%");
    s.scroll_y = 1;
    assert_eq!(position_info(&s, 50), "2%");
    s.mode = DiffViewMode::Normal;
    s.cursor_pos = at(4, 11);
    assert_eq!(position_info(&s, 50), "5:12");
    assert_eq!(showcmd(&s), "");
    s.count = Some(12);
    s.pending_key = Some('g');
    assert_eq!(showcmd(&s), "12g");
    s.count = None;
    s.pending_key = Some('w');
    assert_eq!(showcmd(&s), "Ctrl+w");
}

#[test]
fn messages_are_wrapped_to_the_width() {
    assert_eq!(wrap_text("the quick brown fox", 10), vec!["the quick", "brown fox"]);
    assert_eq!(wrap_text("the quick brown fox", 9), vec!["the quick", "brown fox"]);
    assert_eq!(wrap_text("the quick brown fox", 8), vec!["the", "quick", "brown", "fox"]);
    assert_eq!(wrap_text("a  b\t c", 80), vec!["a b c"]);
    assert_eq!(wrap_text("one\n\ntwo", 80), vec!["one", "", "two"]);
    assert_eq!(wrap_text("one\r\ntwo\n", 80), vec!["one", "two"]);
    assert_eq!(wrap_text("extraordinary word", 5), vec!["extraordinary", "word"]);
    assert_eq!(wrap_text("", 10), vec![""]);
    assert_eq!(wrap_text("   ", 10), vec![""]);
    assert_eq!(wrap_text("\n", 10), vec![""]);
    assert_eq!(wrap_text("a\n   \nb", 10), vec!["a", "b"]);
    assert_eq!(wrap_text("ab cd", 0), vec!["ab", "cd"]);
}

#[test]
fn dates_from_seconds() {
    assert_eq!(epoch_to_date(0), "1970-01-01");
    assert_eq!(epoch_to_date(86399), "1970-01-01");
    assert_eq!(epoch_to_date(86400), "1970-01-02");
    assert_eq!(epoch_to_date(951782400), "2000-02-29");
    assert_eq!(epoch_to_date(951868800), "2000-03-01");
    assert_eq!(epoch_to_date(1700000000), "2023-11-14");
    assert_eq!(epoch_to_date(4102444800), "2100-01-01");
    assert_eq!(epoch_to_date(-1), "1970-01-01");
    assert_eq!(epoch_to_date(-86400), "1969-12-31");
    assert_eq!(epoch_to_date(-62135596800), "0001-01-01");
    assert_eq!(epoch_to_date(-62198755200), "-001-01-01");
    assert_eq!(epoch_to_date(253402300800), "10000-01-01");
}

#[test]
fn reflog_lines_and_hashes() {
    assert_eq!(short_hash("0123456789abcdef"), "0123456");
    assert_eq!(short_hash("0123"), "0123");
    let e = reflog_entry(3, "abcdef1234567890".to_string(), "checkout: moving from a to b: c");
    assert_eq!(e.short_hash, "abcdef1");
    assert_eq!(e.full_hash, "abcdef1234567890");
    assert_eq!(e.selector, "HEAD@{3}");
    assert_eq!(e.action, "checkout");
    assert_eq!(e.message, "moving from a to b: c");
    let plain = reflog_entry(0, "abc".to_string(), "initial");
    assert_eq!((plain.action.as_str(), plain.message.as_str()), ("initial", "initial"));
    let odd = reflog_entry(12, "abc".to_string(), "a:b: ");
    assert_eq!((odd.action.as_str(), odd.message.as_str(), odd.selector.as_str()), ("a:b", "", "HEAD@{12}"));
}

#[test]
fn ordering_of_texts_and_branches() {
    let c = |s: &str| s.chars().collect::<Vec<char>>();
    assert!(comes_before(&c("abc"), &c("abd")));
    assert!(comes_before(&c("ab"), &c("abc")));
    assert!(!comes_before(&c("abc"), &c("abc")));
    assert!(!comes_before(&c("b"), &c("abc")));
    assert!(comes_before(&c("Z"), &c("a")));
    assert!(comes_before(&c(""), &c("a")));
    assert!(!comes_before(&c("a"), &c("")));
    let keys = vec![
        (c("b"), c("x")),
        (c("a"), c("z")),
        (c("b"), c("x")),
        (c("a"), c("y")),
        (c(""), c("q")),
    ];
    assert_eq!(stable_order(&keys), vec![4, 3, 1, 0, 2]);
    assert!(stable_order(&Vec::new()).is_empty());
    let branches = vec![
        BranchInfo { name: "zeta".to_string(), is_head: false },
        BranchInfo { name: "main".to_string(), is_head: true },
        BranchInfo { name: "alpha".to_string(), is_head: false },
        BranchInfo { name: "Beta".to_string(), is_head: false },
    ];
    assert_eq!(branch_order(&branches), vec![1, 3, 2, 0]);
}

#[test]
fn file_types_for_the_status_line() {
    assert_eq!(filetype("src/main.rs"), "rs");
    assert_eq!(filetype("a.b.toml"), "toml");
    assert_eq!(filetype("Makefile"), "Makefile");
    assert_eq!(filetype("dir.d/file"), "");
    assert_eq!(filetype("x.verylongextension"), "");
    assert_eq!(filetype("name."), "");
}

#[test]
fn changes_inside_the_repository_directory() {
    let parts = |p: &str| p.split('/').map(String::from).collect::<Vec<String>>();
    assert!(is_git_internal(&parts("repo/.git/objects/ab/cdef")));
    assert!(is_git_internal(&parts("repo/.git/HEAD")));
    assert!(!is_git_internal(&parts("repo/.git/index")));
    assert!(!is_git_internal(&parts("repo/.git/refs/heads/main")));
    assert!(!is_git_internal(&parts("repo/.git/packed-refs")));
    assert!(!is_git_internal(&parts("repo/src/main.rs")));
    assert!(!is_git_internal(&parts("repo/index")));
    assert!(is_git_internal(&parts("repo/.git/modules/index/x")));
    assert!(!is_git_internal(&Vec::new()));
    assert!(!needs_refresh(&Vec::new()));
    assert!(!needs_refresh(&vec![parts("r/.git/HEAD"), parts("r/.git/objects/x")]));
    assert!(needs_refresh(&vec![parts("r/.git/HEAD"), parts("r/src/a.rs")]));
    assert!(needs_refresh(&vec![parts("r/.git/index")]));
}

#[test]
fn update_failures_by_their_message() {
    assert_eq!(update_failure("API Rate Limit exceeded"), UpdateFailure::RateLimit);
    assert_eq!(update_failure("Could not resolve host"), UpdateFailure::Connection);
    assert_eq!(update_failure("failed to connect"), UpdateFailure::Connection);
    assert_eq!(update_failure("Connection reset; rate limit"), UpdateFailure::RateLimit);
    assert_eq!(update_failure("connection refused"), UpdateFailure::Connection);
    assert_eq!(update_failure("no release found"), UpdateFailure::Other);
    assert_eq!(update_failure(""), UpdateFailure::Other);
}
