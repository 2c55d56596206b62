use vig::app::{App, BranchActionMenuState, ErrorDialogState, ViewMode};
use vig::bars::{build_gh_header, build_gh_status_bar, build_header, build_status_bar};
use vig::diff::{DiffHunk, DiffState, FileDiff, FileStatus};
use vig::dispatch::EditorOutcome;
use vig::github::state::GitHubState;
use vig::listing::{
    build_branch_row, build_commit_row, build_dir_row, build_file_row, build_reflog_row,
    build_tree_row, entry_marks, name_of, selection_style, with_mark, Mark,
};
use vig::overlay::{
    build_dialog, build_dialog_lines, build_help_line, build_menu, build_menu_lines, pad_line,
    place_help, place_overlay, Placement,
};
use vig::repository::{BranchInfo, CommitInfo, ReflogEntry};
use vig::request::Request;
use vig::search::{SearchMatch, SearchOrigin, SearchState};
use vig::tree::TreeEntry;
use vig::view::{CellStyle, StyledRun, Tint};

const ORANGE: Tint = Tint::Rgb(200, 120, 0);
const OLIVE: Tint = Tint::Rgb(60, 60, 0);
const DARK: Tint = Tint::Rgb(30, 30, 30);

fn run(text: &str, fg: Option<Tint>, bg: Option<Tint>, bold: bool) -> StyledRun {
    StyledRun { text: text.to_string(), style: CellStyle { fg, bg, bold } }
}

fn bare(text: &str) -> StyledRun {
    run(text, None, None, false)
}

fn fg(text: &str, tint: Tint) -> StyledRun {
    run(text, Some(tint), None, false)
}

fn file(path: &str, status: FileStatus) -> FileDiff {
    FileDiff { path: path.to_string(), status, hunks: Vec::<DiffHunk>::new(), is_binary: false }
}

fn app_with(files: Vec<FileDiff>) -> App {
    App::new(DiffState::assemble(files, "main".to_string()).unwrap())
}

fn searching(origin: SearchOrigin, matches: Vec<SearchMatch>, current: Option<usize>) -> SearchState {
    let mut s = SearchState::new();
    s.origin = origin;
    s.query = Some("x".to_string());
    s.matches = matches;
    s.current_match_idx = current;
    s
}

#[test]
fn marks_follow_the_search_of_the_pane() {
    let s = searching(
        SearchOrigin::BranchList,
        vec![
            SearchMatch::BranchEntry(3),
            SearchMatch::TreeEntry(0),
            SearchMatch::BranchEntry(1),
            SearchMatch::BranchEntry(9),
        ],
        Some(2),
    );
    assert_eq!(
        entry_marks(&s, SearchOrigin::BranchList, 5),
        vec![Mark::Plain, Mark::Current, Mark::Plain, Mark::Match, Mark::Plain]
    );
    assert_eq!(entry_marks(&s, SearchOrigin::FileTree, 3), vec![Mark::Plain; 3]);
    assert_eq!(entry_marks(&s, SearchOrigin::BranchList, 0), Vec::<Mark>::new());
    let none = searching(SearchOrigin::Reflog, vec![SearchMatch::ReflogEntry(0)], None);
    assert_eq!(entry_marks(&none, SearchOrigin::Reflog, 2), vec![Mark::Match, Mark::Plain]);
    let beyond = searching(SearchOrigin::Reflog, vec![SearchMatch::ReflogEntry(0)], Some(4));
    assert_eq!(entry_marks(&beyond, SearchOrigin::Reflog, 2), vec![Mark::Match, Mark::Plain]);
    let other = searching(SearchOrigin::CommitLog, vec![SearchMatch::BranchEntry(1)], Some(0));
    assert_eq!(entry_marks(&other, SearchOrigin::CommitLog, 2), vec![Mark::Plain, Mark::Plain]);
}

#[test]
fn styles_under_a_mark() {
    assert_eq!(
        with_mark(Mark::Plain, Some(Tint::Cyan), true),
        CellStyle { fg: Some(Tint::Cyan), bg: None, bold: true }
    );
    assert_eq!(
        with_mark(Mark::Match, Some(Tint::Cyan), false),
        CellStyle { fg: Some(Tint::Cyan), bg: Some(OLIVE), bold: false }
    );
    assert_eq!(
        with_mark(Mark::Current, Some(Tint::Cyan), false),
        CellStyle { fg: Some(Tint::Black), bg: Some(ORANGE), bold: false }
    );
    let marks = vec![Mark::Plain, Mark::Match, Mark::Current];
    let on_gray = CellStyle { fg: None, bg: Some(Tint::DarkGray), bold: true };
    let only_bold = CellStyle { fg: None, bg: None, bold: true };
    assert_eq!(selection_style(&marks, 0), on_gray);
    assert_eq!(selection_style(&marks, 1), only_bold);
    assert_eq!(selection_style(&marks, 2), only_bold);
    assert_eq!(selection_style(&marks, 3), on_gray);
}

#[test]
fn rows_of_branches() {
    let head = BranchInfo { name: "main".to_string(), is_head: true };
    let other = BranchInfo { name: "dev".to_string(), is_head: false };
    assert_eq!(
        build_branch_row(&head, Mark::Plain),
        vec![
            bare(" "),
            run("* ", Some(Tint::Green), None, true),
            run("main", Some(Tint::Green), None, true),
        ]
    );
    assert_eq!(build_branch_row(&other, Mark::Plain), vec![bare(" "), bare("  "), bare("dev")]);
    assert_eq!(
        build_branch_row(&head, Mark::Match),
        vec![
            bare(" "),
            run("* ", Some(Tint::Green), Some(OLIVE), true),
            run("main", None, Some(OLIVE), false),
        ]
    );
    assert_eq!(
        build_branch_row(&head, Mark::Current),
        vec![
            bare(" "),
            run("* ", Some(Tint::Black), Some(ORANGE), true),
            run("main", Some(Tint::Black), Some(ORANGE), false),
        ]
    );
    assert_eq!(
        build_branch_row(&other, Mark::Current),
        vec![bare(" "), bare("  "), run("dev", Some(Tint::Black), Some(ORANGE), false)]
    );
}

#[test]
fn rows_of_commits_and_reflog_entries() {
    let commit = CommitInfo {
        short_hash: "abc1234".to_string(),
        author: "ann".to_string(),
        date: "2024-01-02".to_string(),
        message: "Fix".to_string(),
    };
    assert_eq!(
        build_commit_row(&commit, Mark::Plain),
        vec![
            fg(" abc1234 ", Tint::Yellow),
            fg("2024-01-02 ", Tint::DarkGray),
            fg("ann          ", Tint::Cyan),
            bare("Fix"),
        ]
    );
    let long = CommitInfo { author: "a-very-long-name".to_string(), ..commit };
    assert_eq!(
        build_commit_row(&long, Mark::Current),
        vec![
            run(" abc1234 ", Some(Tint::Black), Some(ORANGE), false),
            run("2024-01-02 ", Some(Tint::Black), Some(ORANGE), false),
            run("a-very-long-name ", Some(Tint::Black), Some(ORANGE), false),
            run("Fix", Some(Tint::Black), Some(ORANGE), false),
        ]
    );
    let entry = ReflogEntry {
        short_hash: "abc1234".to_string(),
        full_hash: "abc1234def".to_string(),
        selector: "HEAD@{0}".to_string(),
        action: "commit".to_string(),
        message: "Fix".to_string(),
    };
    assert_eq!(
        build_reflog_row(&entry, Mark::Match),
        vec![
            run(" abc1234 ", Some(Tint::Yellow), Some(OLIVE), false),
            run("HEAD@{0} ", Some(Tint::DarkGray), Some(OLIVE), false),
            run("commit: ", Some(Tint::Cyan), Some(OLIVE), true),
            run("Fix", None, Some(OLIVE), false),
        ]
    );
}

#[test]
fn rows_of_the_file_tree() {
    assert_eq!(name_of("src/ui/mod.rs"), "mod.rs");
    assert_eq!(name_of("mod.rs"), "mod.rs");
    assert_eq!(name_of("src/"), "");
    assert_eq!(name_of(""), "");
    assert_eq!(
        build_dir_row("src/ui", 1, false, Mark::Plain),
        vec![bare("     "), fg("▼ ui/", Tint::DarkGray)]
    );
    assert_eq!(
        build_dir_row("src", 0, true, Mark::Current),
        vec![bare("   "), run("▶ src/", Some(Tint::Black), Some(ORANGE), false)]
    );
    let nested = file("src/ui/mod.rs", FileStatus::Renamed);
    assert_eq!(
        build_file_row(&nested, 2, Mark::Plain),
        vec![bare("     "), run("R ", Some(Tint::Blue), None, true), bare("mod.rs")]
    );
    let top = file("a/b.rs", FileStatus::Untracked);
    assert_eq!(
        build_file_row(&top, 0, Mark::Match),
        vec![bare(" "), run("? ", Some(Tint::DarkGray), None, true), run("a/b.rs", None, Some(OLIVE), false)]
    );
    let files = vec![file("x.rs", FileStatus::Added)];
    assert_eq!(
        build_tree_row(&TreeEntry::File { file_idx: 0, depth: 0 }, &files, Mark::Plain),
        vec![bare(" "), run("A ", Some(Tint::Green), None, true), bare("x.rs")]
    );
    assert_eq!(
        build_tree_row(&TreeEntry::File { file_idx: 1, depth: 0 }, &files, Mark::Plain),
        Vec::<StyledRun>::new()
    );
    assert_eq!(
        build_tree_row(
            &TreeEntry::Dir { path: "d".to_string(), depth: 0, collapsed: false },
            &files,
            Mark::Plain
        ),
        vec![bare("   "), fg("▼ d/", Tint::DarkGray)]
    );
}

#[test]
fn headers_of_the_views() {
    let mut app = app_with(Vec::new());
    let shown = CellStyle { fg: Some(Tint::Black), bg: Some(Tint::White), bold: true };
    assert_eq!(
        build_header(&app),
        vec![
            run(" vig ", Some(Tint::Black), Some(Tint::Cyan), true),
            bare(" "),
            run(" main ", Some(Tint::Black), Some(Tint::Magenta), false),
            bare(" "),
            run(" vs HEAD ", Some(Tint::Black), Some(Tint::Yellow), false),
            bare("  "),
            StyledRun { text: " 1:Git ".to_string(), style: shown },
            bare(" "),
            fg(" 2:GitHub ", Tint::DarkGray),
            bare("  "),
            fg("? help", Tint::DarkGray),
        ]
    );
    app.diff_base_ref = Some("dev".to_string());
    assert_eq!(build_header(&app)[4], run(" vs dev ", Some(Tint::Black), Some(Tint::Yellow), false));
    assert_eq!(
        build_gh_header(ViewMode::GitHub),
        vec![
            run(" vig ", Some(Tint::Black), Some(Tint::Cyan), true),
            bare(" "),
            run(" GitHub ", Some(Tint::Black), Some(Tint::Rgb(36, 41, 47)), false),
            bare("  "),
            fg(" 1:Git ", Tint::DarkGray),
            bare(" "),
            StyledRun { text: " 2:GitHub ".to_string(), style: shown },
            bare("  "),
            fg("? help", Tint::DarkGray),
        ]
    );
}

#[test]
fn status_lines_of_the_views() {
    let mut app = app_with(Vec::new());
    assert_eq!(build_status_bar(&app), vec![fg(" Working tree clean", Tint::Green)]);
    app.status_message = Some("Copied".to_string());
    assert_eq!(build_status_bar(&app), vec![fg(" Copied", Tint::Yellow)]);
    app.search.active = true;
    app.search.input = "ab".to_string();
    assert_eq!(build_status_bar(&app), vec![fg(" /ab█", Tint::White)]);

    let one = app_with(vec![file("a", FileStatus::Added)]);
    assert_eq!(
        build_status_bar(&one),
        vec![fg(" 1 file", Tint::White), bare("  "), fg("+0", Tint::Green), bare(" "), fg("-0", Tint::Red)]
    );
    let two = app_with(vec![file("a", FileStatus::Added), file("b", FileStatus::Deleted)]);
    assert_eq!(build_status_bar(&two)[0], fg(" 2 files", Tint::White));

    let mut gh = GitHubState::new();
    assert_eq!(
        build_gh_status_bar(&gh),
        vec![fg(" 0 issues", Tint::White), bare("  "), fg("0 PRs", Tint::White)]
    );
    gh.prs_loading = true;
    assert_eq!(build_gh_status_bar(&gh), vec![fg(" Loading...", Tint::DarkGray)]);
    gh.gh_error = Some("gh not found".to_string());
    assert_eq!(build_gh_status_bar(&gh), vec![fg(" gh not found", Tint::Red)]);
}

#[test]
fn overlays_stand_in_the_middle() {
    assert_eq!(place_overlay(80, 24, 25, 7), Placement { x: 27, y: 8, width: 25, height: 7 });
    assert_eq!(place_overlay(20, 8, 25, 7), Placement { x: 2, y: 2, width: 16, height: 4 });
    assert_eq!(place_overlay(3, 0, 25, 7), Placement { x: 1, y: 0, width: 0, height: 0 });
    assert_eq!(
        place_overlay(u16::MAX, 100, usize::MAX, 70000),
        Placement { x: 2, y: 2, width: u16::MAX - 4, height: 96 }
    );
}

#[test]
fn lines_are_filled_to_the_width() {
    assert_eq!(
        pad_line(vec![fg("ab", Tint::Red), bare("c")], 5),
        vec![fg("ab", Tint::Red), bare("c"), run("  ", None, Some(DARK), false)]
    );
    assert_eq!(pad_line(vec![bare("abc")], 3), vec![bare("abc")]);
    assert_eq!(pad_line(vec![bare("abcd")], 3), vec![bare("abcd")]);
    assert_eq!(pad_line(Vec::new(), 2), vec![run("  ", None, Some(DARK), false)]);
    assert_eq!(pad_line(vec![bare("é→")], 3), vec![bare("é→"), run(" ", None, Some(DARK), false)]);
}

#[test]
fn lines_of_the_branch_menu() {
    let menu =
        BranchActionMenuState { branch_name: "dev".to_string(), is_head: false, selected_idx: 1 };
    let lines = build_menu_lines(&menu, 23);
    let fill = |n: usize| run(&" ".repeat(n), None, Some(DARK), false);
    assert_eq!(lines.len(), 5);
    assert_eq!(lines[0], vec![run(" dev", None, Some(DARK), true), fill(19)]);
    assert_eq!(
        lines[1],
        vec![run(" ─────────────────────", Some(Tint::DarkGray), Some(DARK), false), fill(1)]
    );
    assert_eq!(
        lines[2],
        vec![
            run(" s  ", Some(Tint::Cyan), Some(DARK), true),
            run("Switch", None, Some(DARK), false),
            fill(13),
        ]
    );
    assert_eq!(
        lines[3],
        vec![
            run(" d  ", Some(Tint::Cyan), Some(Tint::DarkGray), true),
            run("Delete", None, Some(Tint::DarkGray), true),
            fill(13),
        ]
    );
    assert_eq!(
        lines[4],
        vec![
            run(" b  ", Some(Tint::Cyan), Some(DARK), true),
            run("Set as diff base", None, Some(DARK), false),
            fill(3),
        ]
    );
    let head = BranchActionMenuState { branch_name: "main".to_string(), is_head: true, selected_idx: 7 };
    let lines = build_menu_lines(&head, 4);
    assert_eq!(lines[0], vec![run(" main", Some(Tint::Green), Some(DARK), true)]);
    assert_eq!(lines[2].len(), 2);
}

#[test]
fn lines_of_the_error_dialog() {
    let dialog = ErrorDialogState {
        title: "Delete failed".to_string(),
        message: "branch is not fully merged".to_string(),
    };
    let fill = |n: usize| run(&" ".repeat(n), None, Some(DARK), false);
    let blank = vec![run("", None, Some(DARK), false), fill(16)];
    let lines = build_dialog_lines(&dialog, 16, 8);
    assert_eq!(lines.len(), 8);
    assert_eq!(lines[0], vec![run(" Delete failed", Some(Tint::Red), Some(DARK), true), fill(2)]);
    assert_eq!(lines[1], blank);
    assert_eq!(lines[2], vec![run(" branch is not", Some(Tint::White), Some(DARK), false), fill(2)]);
    assert_eq!(lines[3], vec![run(" fully merged", Some(Tint::White), Some(DARK), false), fill(3)]);
    assert_eq!(lines[4], blank);
    assert_eq!(
        lines[5],
        vec![run(" Press any key to dismiss", Some(Tint::DarkGray), Some(DARK), false)]
    );
    assert_eq!(lines[6], blank);
    assert_eq!(lines[7], blank);
    assert_eq!(build_dialog_lines(&dialog, 16, 0).len(), 6);
}

#[test]
fn the_editor_comes_back() {
    let mut app = app_with(vec![file("a", FileStatus::Added)]);
    assert_eq!(app.editor_closed(EditorOutcome::Succeeded), Request::RefreshDiff);
    assert_eq!(app.status_message, None);
    assert_eq!(
        app.editor_closed(EditorOutcome::Exited("exit status: 1".to_string())),
        Request::Nothing
    );
    assert_eq!(app.status_message.as_deref(), Some("Editor exited with: exit status: 1"));
    assert_eq!(
        app.editor_closed(EditorOutcome::Failed("not found".to_string())),
        Request::Nothing
    );
    assert_eq!(app.status_message.as_deref(), Some("Failed to open editor: not found"));
}

#[test]
fn overlays_are_placed_with_their_lines() {
    let menu =
        BranchActionMenuState { branch_name: "dev".to_string(), is_head: false, selected_idx: 0 };
    let (place, lines) = build_menu(&menu, 80, 24);
    assert_eq!(place, Placement { x: 27, y: 8, width: 25, height: 7 });
    assert_eq!(lines, build_menu_lines(&menu, 23));
    let (narrow, lines) = build_menu(&menu, 10, 24);
    assert_eq!(narrow, Placement { x: 2, y: 8, width: 6, height: 7 });
    assert_eq!(lines, build_menu_lines(&menu, 4));

    let dialog = ErrorDialogState {
        title: "Delete failed".to_string(),
        message: "one two three four five six seven eight nine ten eleven twelve".to_string(),
    };
    let (place, lines) = build_dialog(&dialog, 80, 24);
    assert_eq!(place, Placement { x: 13, y: 8, width: 54, height: 8 });
    assert_eq!(lines, build_dialog_lines(&dialog, 52, 6));
    assert_eq!(lines.len(), 6);
    let (small, lines) = build_dialog(&dialog, 24, 9);
    assert_eq!(small, Placement { x: 2, y: 2, width: 20, height: 5 });
    assert_eq!(lines, build_dialog_lines(&dialog, 18, 3));
    assert_eq!(lines.len(), 9);
}

#[test]
fn lines_of_the_help() {
    assert_eq!(
        build_help_line("Tab", "Next pane"),
        vec![run("  Tab         ", Some(Tint::Cyan), None, true), bare("Next pane")]
    );
    assert_eq!(
        build_help_line("Tab / S-Tab!!", ""),
        vec![run("  Tab / S-Tab!!", Some(Tint::Cyan), None, true), bare("")]
    );
    assert_eq!(build_help_line("", "── Reflog ──")[0].text, " ".repeat(14));
    assert_eq!(place_help(80, 60, 39), Placement { x: 15, y: 9, width: 50, height: 41 });
    assert_eq!(place_help(80, 24, 39), Placement { x: 15, y: 2, width: 50, height: 20 });
    assert_eq!(place_help(80, 24, usize::MAX), Placement { x: 15, y: 2, width: 50, height: 20 });
}
