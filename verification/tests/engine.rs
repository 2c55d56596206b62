use vig::app::{App, BranchAction, ClipboardOutcome, FocusedPane, ViewMode};
use vig::cursor::{CursorPos, DiffSide, DiffViewMode};
use vig::diff::{align_hunk_lines, DiffHunk, DiffState, FileDiff, FileStatus, RawHunkLine};
use vig::keys::{KeyCode, KeyEvent};
use vig::repository::{BranchInfo, CommitInfo, ReflogEntry};
use vig::request::Request;
use vig::search::{SearchMatch, SearchOrigin};
use vig::tree::TreeEntry;

fn raw(origin: char, text: &str) -> RawHunkLine {
    RawHunkLine { origin, old_lineno: Some(1), new_lineno: Some(1), content: text.to_string() }
}

fn file(path: &str, lines: &[(char, &str)]) -> FileDiff {
    let raws: Vec<RawHunkLine> = lines.iter().map(|(o, t)| raw(*o, t)).collect();
    FileDiff {
        path: path.to_string(),
        status: FileStatus::Modified,
        hunks: vec![DiffHunk { header: "@@ -1 +1 @@".to_string(), rows: align_hunk_lines(&raws) }],
        is_binary: false,
    }
}

fn app_with(files: Vec<FileDiff>) -> App {
    App::new(DiffState::assemble(files, "main".to_string()).unwrap())
}

fn one_file_app() -> App {
    app_with(vec![file("a.rs", &[('-', "old line"), ('+', "new line")])])
}

fn type_keys(app: &mut App, keys: &str) -> Request {
    let mut last = Request::Nothing;
    for c in keys.chars() {
        last = app.handle_key(KeyEvent::typed(c));
    }
    last
}

fn press(app: &mut App, code: KeyCode) -> Request {
    app.handle_key(KeyEvent::plain(code))
}

fn status(app: &App) -> &str {
    app.status_message.as_deref().unwrap_or("")
}

#[test]
fn start_state() {
    let app = one_file_app();
    assert!(!app.should_quit);
    assert_eq!(app.view_mode, ViewMode::Git);
    assert_eq!(app.focused_pane, FocusedPane::FileTree);
    assert_eq!(app.diff.mode, DiffViewMode::Scroll);
    assert_eq!(app.files.selected_tree_idx, 0);
    assert_eq!(app.files.diff_state.branch_name, "main");
    assert_eq!(app.files.diff_state.stats.additions, 1);
    assert_eq!(app.files.diff_state.stats.deletions, 1);
    assert!(app.selected_file().is_some());
    assert_eq!(app.status_message, None);
}

#[test]
fn yank_line_copies_the_new_line() {
    let mut app = one_file_app();
    app.focused_pane = FocusedPane::DiffView;
    app.diff.mode = DiffViewMode::Normal;
    app.diff.cursor_pos = CursorPos { row: 1, col: 0, side: DiffSide::Right };
    assert_eq!(type_keys(&mut app, "y"), Request::Nothing);
    assert_eq!(type_keys(&mut app, "y"), Request::Copy("new line".to_string()));
    assert_eq!(app.diff.cursor_pos, CursorPos { row: 1, col: 0, side: DiffSide::Right });
    app.clipboard_done("new line", ClipboardOutcome::Copied);
    assert_eq!(status(&app), "Yanked 1 line");
}

#[test]
fn yank_line_reached_by_keys() {
    let mut app = one_file_app();
    type_keys(&mut app, "ii");
    assert_eq!(app.focused_pane, FocusedPane::DiffView);
    assert_eq!(app.diff.mode, DiffViewMode::Normal);
    app.handle_key(KeyEvent::with_ctrl('w'));
    type_keys(&mut app, "lj");
    assert_eq!(app.diff.cursor_pos, CursorPos { row: 1, col: 0, side: DiffSide::Right });
    assert_eq!(type_keys(&mut app, "yy"), Request::Copy("new line".to_string()));
    app.handle_key(KeyEvent::with_ctrl('w'));
    type_keys(&mut app, "h");
    assert_eq!(type_keys(&mut app, "yy"), Request::Copy("old line".to_string()));
    assert_eq!(type_keys(&mut app, "ky$"), Request::Copy("@@ -1 +1 @@".to_string()));
}

#[test]
fn clipboard_reports() {
    let mut app = one_file_app();
    app.clipboard_done("a\nb", ClipboardOutcome::Copied);
    assert_eq!(status(&app), "Yanked 2 lines");
    app.clipboard_done("a\nb\n", ClipboardOutcome::Copied);
    assert_eq!(status(&app), "Yanked 2 lines");
    app.clipboard_done("\n", ClipboardOutcome::Copied);
    assert_eq!(status(&app), "Yanked 1 line");
    app.clipboard_done("a\n\nb", ClipboardOutcome::Copied);
    assert_eq!(status(&app), "Yanked 3 lines");
    app.clipboard_done("x", ClipboardOutcome::Failed);
    assert_eq!(status(&app), "Clipboard error");
    app.clipboard_done("x", ClipboardOutcome::Unavailable);
    assert_eq!(status(&app), "Clipboard unavailable");
}

#[test]
fn empty_yank_asks_for_nothing() {
    let mut app = app_with(vec![file("a.rs", &[('+', "")])]);
    type_keys(&mut app, "ii");
    type_keys(&mut app, "j");
    assert_eq!(type_keys(&mut app, "yy"), Request::Nothing);
}

#[test]
fn content_follows_the_side_of_the_cursor() {
    let mut app = one_file_app();
    assert_eq!(app.content_lines(), vec!["@@ -1 +1 @@", "old line"]);
    assert_eq!(app.content_lines(), vec!["@@ -1 +1 @@", "old line"]);
    app.diff.cursor_pos.side = DiffSide::Right;
    assert_eq!(app.content_lines(), vec!["@@ -1 +1 @@", "new line"]);
    app.files.select(5);
    assert!(app.content_lines().is_empty());
}

#[test]
fn side_switch_brings_the_cursor_inside_the_other_side() {
    let mut app = app_with(vec![file("a.rs", &[('-', "a long old line"), ('+', "new")])]);
    type_keys(&mut app, "ii");
    type_keys(&mut app, "j$");
    assert_eq!(app.diff.cursor_pos, CursorPos { row: 1, col: 14, side: DiffSide::Left });
    app.handle_key(KeyEvent::with_ctrl('w'));
    type_keys(&mut app, "l");
    assert_eq!(app.diff.cursor_pos, CursorPos { row: 1, col: 2, side: DiffSide::Right });
}

#[test]
fn search_in_the_diff_view() {
    let mut app = one_file_app();
    type_keys(&mut app, "i");
    assert_eq!(type_keys(&mut app, "/"), Request::Nothing);
    assert!(app.search.active);
    assert_eq!(app.search.origin, SearchOrigin::DiffView);
    type_keys(&mut app, "LINE");
    assert_eq!(app.search.input, "LINE");
    assert_eq!(press(&mut app, KeyCode::Enter), Request::Nothing);
    assert!(!app.search.active);
    assert_eq!(app.search.query, Some("LINE".to_string()));
    assert_eq!(
        app.search.matches,
        vec![
            SearchMatch::DiffLine { row: 1, col_start: 4, col_end: 8, side: DiffSide::Left },
            SearchMatch::DiffLine { row: 1, col_start: 4, col_end: 8, side: DiffSide::Right },
        ]
    );
    assert_eq!(app.search.current_match_idx, Some(0));
    assert_eq!(status(&app), "[1/2]");
    assert_eq!(app.diff.scroll_y, 1);
    type_keys(&mut app, "n");
    assert_eq!((app.search.current_match_idx, status(&app)), (Some(1), "[2/2]"));
    type_keys(&mut app, "n");
    assert_eq!((app.search.current_match_idx, status(&app)), (Some(0), "[1/2]"));
    type_keys(&mut app, "N");
    assert_eq!((app.search.current_match_idx, status(&app)), (Some(1), "[2/2]"));
    assert_eq!(app.search.history, vec!["LINE".to_string()]);
}

#[test]
fn jumps_in_normal_mode_move_the_cursor() {
    let mut app = one_file_app();
    type_keys(&mut app, "ii/line");
    press(&mut app, KeyCode::Enter);
    assert_eq!(app.diff.cursor_pos, CursorPos { row: 1, col: 4, side: DiffSide::Left });
    type_keys(&mut app, "n");
    assert_eq!(app.diff.cursor_pos, CursorPos { row: 1, col: 4, side: DiffSide::Right });
    assert_eq!(app.content_lines(), vec!["@@ -1 +1 @@", "new line"]);
    press(&mut app, KeyCode::Esc);
    assert_eq!(app.search.query, None);
    assert_eq!(app.search.last_query, Some("line".to_string()));
    assert!(app.search.matches.is_empty());
    assert_eq!(app.diff.mode, DiffViewMode::Normal);
    type_keys(&mut app, "n");
    assert_eq!(app.search.query, Some("line".to_string()));
    assert_eq!(app.search.matches.len(), 2);
    assert_eq!(app.search.current_match_idx, Some(0));
    assert_eq!(app.diff.cursor_pos, CursorPos { row: 1, col: 4, side: DiffSide::Left });
    press(&mut app, KeyCode::Esc);
    press(&mut app, KeyCode::Esc);
    assert_eq!(app.diff.mode, DiffViewMode::Scroll);
}

#[test]
fn search_without_matches_and_without_a_query() {
    let mut app = one_file_app();
    assert_eq!(type_keys(&mut app, "n"), Request::Nothing);
    assert_eq!(app.status_message, None);
    type_keys(&mut app, "i/zzz");
    press(&mut app, KeyCode::Enter);
    assert_eq!(status(&app), "Pattern not found");
    assert_eq!(app.search.current_match_idx, None);
    type_keys(&mut app, "/");
    press(&mut app, KeyCode::Enter);
    assert!(!app.search.active);
    assert_eq!(app.search.query, None);
}

#[test]
fn search_prompt_editing_and_history() {
    let mut app = one_file_app();
    type_keys(&mut app, "/one");
    press(&mut app, KeyCode::Enter);
    type_keys(&mut app, "/two");
    press(&mut app, KeyCode::Enter);
    type_keys(&mut app, "/ab");
    press(&mut app, KeyCode::Backspace);
    assert_eq!(app.search.input, "a");
    press(&mut app, KeyCode::Up);
    assert_eq!(app.search.input, "two");
    app.handle_key(KeyEvent::with_ctrl('p'));
    assert_eq!(app.search.input, "one");
    app.handle_key(KeyEvent::with_ctrl('n'));
    assert_eq!(app.search.input, "two");
    press(&mut app, KeyCode::Down);
    assert_eq!(app.search.input, "a");
    type_keys(&mut app, "pn");
    assert_eq!(app.search.input, "apn");
    press(&mut app, KeyCode::Backspace);
    press(&mut app, KeyCode::Backspace);
    press(&mut app, KeyCode::Backspace);
    press(&mut app, KeyCode::Backspace);
    assert_eq!(app.search.input, "");
    type_keys(&mut app, "x");
    press(&mut app, KeyCode::Esc);
    assert!(!app.search.active);
    assert_eq!(app.search.input, "");
    assert_eq!(app.search.history, vec!["one".to_string(), "two".to_string()]);
    type_keys(&mut app, "q");
    assert!(app.should_quit);
}

#[test]
fn overlays_take_keys_first() {
    let mut app = one_file_app();
    type_keys(&mut app, "?");
    assert!(app.show_help);
    assert_eq!(type_keys(&mut app, "q"), Request::Nothing);
    assert!(!app.show_help);
    assert!(!app.should_quit);
    app.branch_switched("dev", Err("no such branch".to_string()));
    assert!(app.error_dialog.is_some());
    assert_eq!(app.error_dialog.as_ref().unwrap().title, "Switch failed");
    assert_eq!(app.error_dialog.as_ref().unwrap().message, "no such branch");
    type_keys(&mut app, "q");
    assert!(app.error_dialog.is_none());
    assert!(!app.should_quit);
    app.handle_key(KeyEvent::with_ctrl('c'));
    assert!(app.should_quit);
}

#[test]
fn global_keys_of_the_git_view() {
    let mut app = one_file_app();
    assert_eq!(type_keys(&mut app, "r"), Request::Reload);
    assert_eq!(type_keys(&mut app, "e"), Request::OpenEditor);
    let order = [
        FocusedPane::BranchList,
        FocusedPane::Reflog,
        FocusedPane::GitLog,
        FocusedPane::DiffView,
        FocusedPane::FileTree,
    ];
    for pane in order.iter() {
        press(&mut app, KeyCode::Tab);
        assert_eq!(app.focused_pane, *pane);
    }
    assert_eq!(app.previous_pane, FocusedPane::DiffView);
    press(&mut app, KeyCode::BackTab);
    assert_eq!(app.focused_pane, FocusedPane::DiffView);
    press(&mut app, KeyCode::BackTab);
    assert_eq!(app.focused_pane, FocusedPane::GitLog);
    assert_eq!(type_keys(&mut app, "2"), Request::GhInitialize);
    assert_eq!(app.view_mode, ViewMode::GitHub);
    assert!(app.github.initialized);
    assert_eq!(type_keys(&mut app, "1"), Request::Nothing);
    assert_eq!(app.view_mode, ViewMode::Git);
    assert_eq!(type_keys(&mut app, "2"), Request::Nothing);
    assert_eq!(type_keys(&mut app, "r"), Request::GhRefresh);
    type_keys(&mut app, "q");
    assert!(app.should_quit);
}

#[test]
fn modal_diff_view_takes_every_key() {
    let mut app = one_file_app();
    type_keys(&mut app, "ii");
    assert_eq!(type_keys(&mut app, "q"), Request::Nothing);
    assert_eq!(type_keys(&mut app, "r"), Request::Nothing);
    assert_eq!(type_keys(&mut app, "2"), Request::Nothing);
    assert!(!app.should_quit);
    assert_eq!(app.view_mode, ViewMode::Git);
    assert_eq!(app.diff.count, Some(2));
    press(&mut app, KeyCode::Tab);
    assert_eq!(app.focused_pane, FocusedPane::DiffView);
    type_keys(&mut app, "v");
    assert_eq!(app.diff.mode, DiffViewMode::Visual);
    press(&mut app, KeyCode::Esc);
    assert_eq!(app.diff.mode, DiffViewMode::Normal);
    press(&mut app, KeyCode::Esc);
    assert_eq!(app.diff.mode, DiffViewMode::Scroll);
    press(&mut app, KeyCode::Esc);
    assert_eq!(app.focused_pane, FocusedPane::FileTree);
}

fn tree_files() -> Vec<FileDiff> {
    vec![
        file("a/x.rs", &[('+', "x")]),
        file("a/y.rs", &[('+', "y")]),
        file("b/z.rs", &[('+', "z")]),
        file("top.rs", &[('+', "t")]),
    ]
}

fn dir(path: &str, depth: usize, collapsed: bool) -> TreeEntry {
    TreeEntry::Dir { path: path.to_string(), depth, collapsed }
}

#[test]
fn file_tree_groups_files_under_directories() {
    let mut app = app_with(tree_files());
    assert_eq!(
        app.build_tree_entries(),
        vec![
            dir("a", 0, false),
            TreeEntry::File { file_idx: 0, depth: 1 },
            TreeEntry::File { file_idx: 1, depth: 1 },
            TreeEntry::File { file_idx: 2, depth: 0 },
            TreeEntry::File { file_idx: 3, depth: 0 },
        ]
    );
    assert!(app.selected_file().is_none());
    type_keys(&mut app, " ");
    assert_eq!(
        app.build_tree_entries(),
        vec![
            dir("a", 0, true),
            TreeEntry::File { file_idx: 2, depth: 0 },
            TreeEntry::File { file_idx: 3, depth: 0 },
        ]
    );
    assert_eq!(app.files.collapsed_dirs, vec!["a".to_string()]);
    press(&mut app, KeyCode::Enter);
    assert!(app.files.collapsed_dirs.is_empty());
    assert_eq!(app.build_tree_entries().len(), 5);
    assert!(app_with(Vec::new()).build_tree_entries().is_empty());
}

#[test]
fn nested_directories_in_the_file_tree() {
    let mut app = app_with(vec![
        file("src/ui/a.rs", &[('+', "a")]),
        file("src/ui/b.rs", &[('+', "b")]),
        file("src/main.rs", &[('+', "m")]),
    ]);
    assert_eq!(
        app.build_tree_entries(),
        vec![
            dir("src", 0, false),
            dir("src/ui", 1, false),
            TreeEntry::File { file_idx: 0, depth: 2 },
            TreeEntry::File { file_idx: 1, depth: 2 },
            TreeEntry::File { file_idx: 2, depth: 1 },
        ]
    );
    app.files.toggle_dir("src/ui");
    assert_eq!(
        app.build_tree_entries(),
        vec![
            dir("src", 0, false),
            dir("src/ui", 1, true),
            TreeEntry::File { file_idx: 2, depth: 1 },
        ]
    );
    app.files.toggle_dir("src");
    assert_eq!(app.build_tree_entries(), vec![dir("src", 0, true)]);
    app.files.toggle_dir("src");
    app.files.toggle_dir("src/ui");
    assert_eq!(app.build_tree_entries().len(), 5);
}

#[test]
fn file_tree_selection_moves_and_opens() {
    let mut app = app_with(tree_files());
    app.diff.scroll_y = 3;
    type_keys(&mut app, "j");
    assert_eq!(app.files.selected_tree_idx, 1);
    assert_eq!(app.diff.scroll_y, 0);
    assert_eq!(app.selected_file().unwrap().path, "a/x.rs");
    type_keys(&mut app, "jjjjjj");
    assert_eq!(app.files.selected_tree_idx, 4);
    assert_eq!(app.selected_file().unwrap().path, "top.rs");
    type_keys(&mut app, "k");
    assert_eq!(app.selected_file().unwrap().path, "b/z.rs");
    press(&mut app, KeyCode::Up);
    press(&mut app, KeyCode::Down);
    assert_eq!(app.files.selected_tree_idx, 3);
    press(&mut app, KeyCode::Enter);
    assert_eq!(app.focused_pane, FocusedPane::DiffView);
    assert_eq!(app.content_lines(), vec!["@@ -1 +1 @@", ""]);
    app.diff.cursor_pos.side = DiffSide::Right;
    assert_eq!(app.content_lines(), vec!["@@ -1 +1 @@", "z"]);
    press(&mut app, KeyCode::Esc);
    assert_eq!(app.focused_pane, FocusedPane::FileTree);
    type_keys(&mut app, "l");
    assert_eq!(app.focused_pane, FocusedPane::BranchList);
}

#[test]
fn diff_search_follows_the_selected_file() {
    let mut app = app_with(tree_files());
    type_keys(&mut app, "j");
    type_keys(&mut app, "i/x");
    press(&mut app, KeyCode::Enter);
    assert_eq!(
        app.search.matches,
        vec![SearchMatch::DiffLine { row: 1, col_start: 0, col_end: 1, side: DiffSide::Right }]
    );
    press(&mut app, KeyCode::Esc);
    assert_eq!(app.search.matches.len(), 0);
    type_keys(&mut app, "/y");
    press(&mut app, KeyCode::Enter);
    assert!(app.search.matches.is_empty());
    press(&mut app, KeyCode::BackTab);
    assert_eq!(app.focused_pane, FocusedPane::GitLog);
    app.focused_pane = FocusedPane::FileTree;
    type_keys(&mut app, "j");
    assert_eq!(app.selected_file().unwrap().path, "a/y.rs");
    assert_eq!(
        app.search.matches,
        vec![SearchMatch::DiffLine { row: 1, col_start: 0, col_end: 1, side: DiffSide::Right }]
    );
    assert_eq!(app.search.current_match_idx, None);
}

#[test]
fn search_in_the_file_tree() {
    let mut app = app_with(tree_files());
    type_keys(&mut app, "/RS");
    assert_eq!(app.search.origin, SearchOrigin::FileTree);
    press(&mut app, KeyCode::Enter);
    assert_eq!(
        app.search.matches,
        vec![
            SearchMatch::TreeEntry(1),
            SearchMatch::TreeEntry(2),
            SearchMatch::TreeEntry(3),
            SearchMatch::TreeEntry(4),
        ]
    );
    assert_eq!(app.files.selected_tree_idx, 1);
    type_keys(&mut app, "nn");
    assert_eq!(app.files.selected_tree_idx, 3);
    assert_eq!(status(&app), "[3/4]");
    type_keys(&mut app, "/a");
    press(&mut app, KeyCode::Enter);
    assert_eq!(
        app.search.matches,
        vec![SearchMatch::TreeEntry(0), SearchMatch::TreeEntry(1), SearchMatch::TreeEntry(2)]
    );
}

fn branch(name: &str, is_head: bool) -> BranchInfo {
    BranchInfo { name: name.to_string(), is_head }
}

fn commit(hash: &str, author: &str, message: &str) -> CommitInfo {
    CommitInfo {
        short_hash: hash.to_string(),
        author: author.to_string(),
        date: "2024-01-02".to_string(),
        message: message.to_string(),
    }
}

fn reflog(n: usize, action: &str, message: &str) -> ReflogEntry {
    ReflogEntry {
        short_hash: format!("{:07}", n),
        full_hash: format!("{:040}", n),
        selector: format!("HEAD@{{{}}}", n),
        action: action.to_string(),
        message: message.to_string(),
    }
}

#[test]
fn branch_list_and_commit_log() {
    let mut app = one_file_app();
    assert_eq!(
        app.load_branches(vec![branch("main", true), branch("dev", false), branch("fix", false)]),
        Request::LoadBranchLog("main".to_string())
    );
    assert_eq!(app.git_log.ref_name, "main");
    app.set_branch_log(vec![commit("abc1234", "Ada", "Start"), commit("def5678", "Bob", "Fix bug")]);
    app.focused_pane = FocusedPane::BranchList;
    assert_eq!(type_keys(&mut app, "j"), Request::LoadBranchLog("dev".to_string()));
    assert_eq!(app.branch_list.selected_idx, 1);
    assert_eq!(type_keys(&mut app, "jj"), Request::Nothing);
    assert_eq!(app.branch_list.selected_idx, 2);
    assert_eq!(type_keys(&mut app, "k"), Request::LoadBranchLog("dev".to_string()));
    type_keys(&mut app, "/FI");
    press(&mut app, KeyCode::Enter);
    assert_eq!(app.search.matches, vec![SearchMatch::BranchEntry(2)]);
    assert_eq!(app.branch_list.selected_idx, 2);
    assert_eq!(app.git_log.ref_name, "fix");
    type_keys(&mut app, "i");
    assert_eq!(app.focused_pane, FocusedPane::GitLog);
    type_keys(&mut app, "jjj");
    assert_eq!(app.git_log.scroll, 3);
    type_keys(&mut app, "k");
    app.handle_key(KeyEvent::with_ctrl('d'));
    assert_eq!(app.git_log.scroll, 12);
    app.handle_key(KeyEvent::with_ctrl('u'));
    assert_eq!(app.git_log.scroll, 2);
    type_keys(&mut app, "G");
    assert_eq!(app.git_log.scroll, 0);
    type_keys(&mut app, "/bob");
    press(&mut app, KeyCode::Enter);
    assert_eq!(app.search.matches, vec![SearchMatch::CommitEntry(1)]);
    assert_eq!(app.git_log.scroll, 1);
    type_keys(&mut app, "g");
    assert_eq!(app.git_log.scroll, 0);
    type_keys(&mut app, "h");
    assert_eq!(app.focused_pane, FocusedPane::Reflog);
    assert_eq!(app.load_branches(Vec::new()), Request::Nothing);
    assert_eq!(app.branch_list.selected_idx, 0);
    assert_eq!(app.git_log.ref_name, "");
    assert!(app.git_log.commits.is_empty());
}

#[test]
fn branch_actions() {
    let mut app = one_file_app();
    app.load_branches(vec![branch("main", true), branch("dev", false)]);
    app.focused_pane = FocusedPane::BranchList;
    press(&mut app, KeyCode::Enter);
    let menu = app.branch_action_menu.as_ref().unwrap();
    assert_eq!((menu.branch_name.as_str(), menu.is_head, menu.selected_idx), ("main", true, 0));
    assert_eq!(type_keys(&mut app, "s"), Request::Nothing);
    assert_eq!(status(&app), "Already on this branch");
    assert!(app.branch_action_menu.is_none());
    press(&mut app, KeyCode::Enter);
    assert_eq!(type_keys(&mut app, "d"), Request::Nothing);
    assert_eq!(status(&app), "Cannot delete the current branch");
    type_keys(&mut app, "j");
    press(&mut app, KeyCode::Enter);
    type_keys(&mut app, "jjjj");
    assert_eq!(app.branch_action_menu.as_ref().unwrap().selected_idx, 2);
    type_keys(&mut app, "k");
    assert_eq!(app.branch_action_menu.as_ref().unwrap().selected_idx, 1);
    assert_eq!(press(&mut app, KeyCode::Enter), Request::DeleteBranch("dev".to_string()));
    assert_eq!(app.branch_deleted("dev", Ok(())), Request::ReloadBranches);
    assert_eq!(status(&app), "Deleted dev");
    press(&mut app, KeyCode::Enter);
    assert_eq!(type_keys(&mut app, "s"), Request::SwitchBranch("dev".to_string()));
    assert_eq!(app.branch_switched("dev", Ok(())), Request::ReloadBranchesAndDiff);
    assert_eq!(status(&app), "Switched to dev");
    press(&mut app, KeyCode::Enter);
    assert_eq!(type_keys(&mut app, "b"), Request::RefreshDiff);
    assert_eq!(app.diff_base_ref, Some("dev".to_string()));
    press(&mut app, KeyCode::Enter);
    type_keys(&mut app, "q");
    assert!(app.branch_action_menu.is_none());
    assert!(!app.should_quit);
    assert_eq!(press(&mut app, KeyCode::Esc), Request::RefreshDiff);
    assert_eq!(app.diff_base_ref, None);
    assert_eq!(app.branch_deleted("x", Err("nope".to_string())), Request::Nothing);
    assert_eq!(app.error_dialog.as_ref().unwrap().title, "Delete failed");
    assert_eq!(app.execute_branch_action(BranchAction::Switch), Request::Nothing);
    assert_eq!(BranchAction::Switch.label(), "Switch");
    assert_eq!(BranchAction::Delete.label(), "Delete");
    assert_eq!(BranchAction::DiffBase.label(), "Set as diff base");
    assert_eq!(
        (BranchAction::Switch.key(), BranchAction::Delete.key(), BranchAction::DiffBase.key()),
        ('s', 'd', 'b')
    );
    assert_eq!(BranchAction::at(2), Some(BranchAction::DiffBase));
    assert_eq!(BranchAction::at(3), None);
}

#[test]
fn reflog_pane() {
    let mut app = one_file_app();
    app.load_reflog((0..30).map(|n| reflog(n, "commit", "work")).collect());
    app.reflog.view_height = 10;
    app.focused_pane = FocusedPane::Reflog;
    type_keys(&mut app, "jj");
    assert_eq!(app.reflog.selected_idx, 2);
    app.handle_key(KeyEvent::with_ctrl('d'));
    assert_eq!(app.reflog.selected_idx, 7);
    app.handle_key(KeyEvent::with_ctrl('u'));
    app.handle_key(KeyEvent::with_ctrl('u'));
    assert_eq!(app.reflog.selected_idx, 0);
    type_keys(&mut app, "G");
    assert_eq!(app.reflog.selected_idx, 29);
    app.handle_key(KeyEvent::with_ctrl('d'));
    assert_eq!(app.reflog.selected_idx, 29);
    type_keys(&mut app, "gk");
    assert_eq!(app.reflog.selected_idx, 0);
    type_keys(&mut app, "j");
    assert_eq!(press(&mut app, KeyCode::Enter), Request::RefreshDiff);
    assert_eq!(app.diff_base_ref, Some(format!("{:040}", 1)));
    type_keys(&mut app, "/head@{12}");
    press(&mut app, KeyCode::Enter);
    assert_eq!(app.search.matches, vec![SearchMatch::ReflogEntry(12)]);
    assert_eq!(app.reflog.selected_idx, 12);
    press(&mut app, KeyCode::Esc);
    assert_eq!(app.focused_pane, FocusedPane::Reflog);
    press(&mut app, KeyCode::Esc);
    assert_eq!(app.focused_pane, FocusedPane::BranchList);
    app.load_reflog(Vec::new());
    assert_eq!(app.reflog.selected_idx, 0);
}

#[test]
fn refreshed_diff_keeps_the_selected_file() {
    let mut app = app_with(vec![
        file("a/x.rs", &[('+', "x")]),
        file("a/y.rs", &[('+', "y")]),
        file("top.rs", &[('+', "t")]),
    ]);
    type_keys(&mut app, "jj");
    assert_eq!(app.selected_file().unwrap().path, "a/y.rs");
    app.diff.scroll_y = 4;
    app.status_message = Some("old".to_string());
    type_keys(&mut app, "/y");
    press(&mut app, KeyCode::Enter);
    let next = DiffState::assemble(
        vec![file("b.rs", &[('+', "b")]), file("a/y.rs", &[('+', "y2")])],
        "main".to_string(),
    )
    .unwrap();
    assert_eq!(app.refresh_diff(Ok(next)), Request::Nothing);
    assert_eq!(app.selected_file().unwrap().path, "a/y.rs");
    assert_eq!(app.files.selected_tree_idx, 1);
    assert_eq!(app.diff.scroll_y, 0);
    assert_eq!(app.status_message, None);
    assert!(app.search.matches.is_empty());
    let gone = DiffState::assemble(vec![file("c.rs", &[('+', "c")])], "main".to_string()).unwrap();
    app.refresh_diff(Ok(gone));
    assert_eq!(app.files.selected_tree_idx, 0);
    assert_eq!(app.selected_file().unwrap().path, "c.rs");
    let empty = DiffState::assemble(Vec::new(), "main".to_string()).unwrap();
    app.refresh_diff(Ok(empty));
    assert!(app.selected_file().is_none());
    assert!(app.content_lines().is_empty());
}

#[test]
fn failed_refresh_falls_back_to_the_default_base() {
    let mut app = one_file_app();
    app.diff_base_ref = Some("nonsense".to_string());
    assert_eq!(app.refresh_diff(Err("bad ref".to_string())), Request::RefreshDiff);
    assert_eq!(app.diff_base_ref, None);
    let again = DiffState::assemble(vec![file("a.rs", &[('+', "a")])], "main".to_string()).unwrap();
    assert_eq!(app.refresh_diff(Ok(again)), Request::Nothing);
    assert_eq!(status(&app), "Invalid ref, fell back to HEAD: bad ref");
    assert_eq!(app.refresh_diff(Err("boom".to_string())), Request::Nothing);
    assert_eq!(status(&app), "Diff error: boom");
    assert_eq!(app.files.diff_state.files.len(), 1);
}

#[test]
fn escape_leaves_normal_mode_without_a_file() {
    let mut app = app_with(Vec::new());
    app.focused_pane = FocusedPane::DiffView;
    app.diff.mode = DiffViewMode::Normal;
    app.diff.count = Some(4);
    assert_eq!(press(&mut app, KeyCode::Esc), Request::Nothing);
    assert_eq!(app.diff.mode, DiffViewMode::Scroll);
    assert_eq!(app.diff.pending_key, None);
    assert_eq!(app.diff.count, None);

    let mut searching = app_with(Vec::new());
    searching.focused_pane = FocusedPane::DiffView;
    searching.diff.mode = DiffViewMode::Normal;
    searching.search.query = Some("x".to_string());
    press(&mut searching, KeyCode::Esc);
    assert_eq!(searching.diff.mode, DiffViewMode::Normal);
    assert_eq!(searching.search.query, None);
    press(&mut searching, KeyCode::Esc);
    assert_eq!(searching.diff.mode, DiffViewMode::Scroll);
}

#[test]
fn a_refreshed_diff_brings_the_cursor_inside() {
    let long = file("a.rs", &[(' ', "one"), (' ', "two"), (' ', "three"), (' ', "four words")]);
    let short = file("a.rs", &[(' ', "x")]);
    let mut app = app_with(vec![long]);
    app.focused_pane = FocusedPane::DiffView;
    app.diff.mode = DiffViewMode::Normal;
    app.diff.cursor_pos = CursorPos { row: 4, col: 7, side: DiffSide::Right };
    let fresh = DiffState::assemble(vec![short], "main".to_string()).unwrap();
    assert_eq!(app.refresh_diff(Ok(fresh)), Request::Nothing);
    assert_eq!(app.diff.mode, DiffViewMode::Normal);
    assert_eq!(app.diff.cursor_pos, CursorPos { row: 1, col: 0, side: DiffSide::Right });
    let none = DiffState::assemble(Vec::new(), "main".to_string()).unwrap();
    app.refresh_diff(Ok(none));
    assert_eq!(app.diff.cursor_pos, CursorPos { row: 1, col: 0, side: DiffSide::Right });
    press(&mut app, KeyCode::Esc);
    assert_eq!(app.diff.mode, DiffViewMode::Scroll);
}
