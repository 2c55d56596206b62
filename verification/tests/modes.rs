use vig::cursor::{CursorPos, DiffSide, DiffViewMode};
use vig::keys::{digit_value, push_digit, KeyCode, KeyEvent};
use vig::modal::{DiffViewState, Outcome};

fn buffer() -> Vec<String> {
    vec!["fn main() {", "    let x = 1;", "", "}"].into_iter().map(String::from).collect()
}

fn normal_at(row: usize, col: usize) -> DiffViewState {
    let mut s = DiffViewState::new();
    s.mode = DiffViewMode::Normal;
    s.cursor_pos = CursorPos { row, col, side: DiffSide::Left };
    s.view_height = 2;
    s.total_lines = 4;
    s
}

fn press(s: &mut DiffViewState, keys: &str, lines: &Vec<String>) -> Outcome {
    let mut last = Outcome::Handled;
    for c in keys.chars() {
        last = match s.mode {
            DiffViewMode::Scroll => s.scroll_key(KeyEvent::typed(c), lines, false),
            DiffViewMode::Normal => s.normal_key(KeyEvent::typed(c), lines, false),
            _ => s.visual_key(KeyEvent::typed(c), lines),
        };
    }
    last
}

#[test]
fn start_state_is_scroll_mode_at_the_top() {
    let s = DiffViewState::new();
    assert_eq!(s.mode, DiffViewMode::Scroll);
    assert_eq!(s.cursor_pos, CursorPos { row: 0, col: 0, side: DiffSide::Left });
    assert_eq!(s.visual_anchor, None);
    assert_eq!(s.pending_key, None);
    assert_eq!(s.count, None);
    assert_eq!((s.scroll_y, s.scroll_x), (0, 0));
}

#[test]
fn digits_accumulate_and_saturate() {
    assert_eq!(digit_value('7'), Some(7));
    assert_eq!(digit_value('0'), Some(0));
    assert_eq!(digit_value('x'), None);
    assert_eq!(push_digit(None, 4), 4);
    assert_eq!(push_digit(Some(4), 2), 42);
    assert_eq!(push_digit(Some(usize::MAX), 1), usize::MAX);
    assert_eq!(push_digit(Some(usize::MAX / 10 + 1), 0), usize::MAX);
}

#[test]
fn scroll_mode_scrolls_within_the_lines() {
    let l = buffer();
    let mut s = DiffViewState::new();
    s.total_lines = 10;
    s.view_height = 4;
    press(&mut s, "jj", &l);
    assert_eq!(s.scroll_y, 2);
    press(&mut s, "jjjjjjjj", &l);
    assert_eq!(s.scroll_y, 6);
    press(&mut s, "k", &l);
    assert_eq!(s.scroll_y, 5);
    press(&mut s, "g", &l);
    assert_eq!(s.scroll_y, 0);
    press(&mut s, "k", &l);
    assert_eq!(s.scroll_y, 0);
    press(&mut s, "G", &l);
    assert_eq!(s.scroll_y, 6);
    s.scroll_key(KeyEvent::with_ctrl('u'), &l, false);
    assert_eq!(s.scroll_y, 4);
    s.scroll_key(KeyEvent::with_ctrl('d'), &l, false);
    assert_eq!(s.scroll_y, 6);
    press(&mut s, "ll", &l);
    assert_eq!(s.scroll_x, 8);
    press(&mut s, "hhh", &l);
    assert_eq!(s.scroll_x, 0);
    s.scroll_key(KeyEvent::plain(KeyCode::Down), &l, false);
    assert_eq!(s.scroll_y, 6);
    s.scroll_key(KeyEvent::plain(KeyCode::Up), &l, false);
    assert_eq!(s.scroll_y, 5);
    assert_eq!(s.mode, DiffViewMode::Scroll);
}

#[test]
fn scroll_mode_outcomes() {
    let l = buffer();
    let mut s = DiffViewState::new();
    assert_eq!(press(&mut s, "/", &l), Outcome::StartSearch);
    assert_eq!(press(&mut s, "n", &l), Outcome::Jump(true));
    assert_eq!(press(&mut s, "N", &l), Outcome::Jump(false));
    assert_eq!(s.scroll_key(KeyEvent::plain(KeyCode::Esc), &l, false), Outcome::LeaveFocus);
    assert_eq!(s.scroll_key(KeyEvent::plain(KeyCode::Esc), &l, true), Outcome::ClearSearch);
    assert_eq!(s, DiffViewState::new());
}

#[test]
fn insert_key_enters_normal_mode_at_the_top_of_the_view() {
    let l = buffer();
    let mut s = DiffViewState::new();
    s.total_lines = 4;
    s.view_height = 2;
    s.scroll_y = 2;
    s.cursor_pos = CursorPos { row: 0, col: 7, side: DiffSide::Right };
    press(&mut s, "i", &l);
    assert_eq!(s.mode, DiffViewMode::Normal);
    assert_eq!(s.cursor_pos, CursorPos { row: 2, col: 0, side: DiffSide::Left });
    let mut t = DiffViewState::new();
    t.scroll_y = 50;
    press(&mut t, "i", &l);
    assert_eq!(t.cursor_pos, CursorPos { row: 3, col: 0, side: DiffSide::Left });
    let mut e = DiffViewState::new();
    press(&mut e, "i", &Vec::new());
    assert_eq!(e.mode, DiffViewMode::Scroll);
}

#[test]
fn count_prefix_is_used_by_one_motion() {
    let l = buffer();
    let mut s = normal_at(0, 0);
    press(&mut s, "3", &l);
    assert_eq!(s.count, Some(3));
    press(&mut s, "l", &l);
    assert_eq!(s.cursor_pos.col, 3);
    assert_eq!(s.count, None);
    press(&mut s, "l", &l);
    assert_eq!(s.cursor_pos.col, 4);
    press(&mut s, "10", &l);
    assert_eq!(s.count, Some(10));
    press(&mut s, "h", &l);
    assert_eq!(s.cursor_pos.col, 0);
    press(&mut s, "ll0", &l);
    assert_eq!((s.cursor_pos.col, s.count), (0, None));
    press(&mut s, "2j", &l);
    assert_eq!(s.cursor_pos.row, 2);
    press(&mut s, "5x", &l);
    assert_eq!(s.count, None);
}

#[test]
fn normal_mode_motions_and_go_to_line() {
    let l = buffer();
    let mut s = normal_at(0, 0);
    press(&mut s, "w", &l);
    assert_eq!((s.cursor_pos.row, s.cursor_pos.col), (0, 3));
    press(&mut s, "e", &l);
    assert_eq!((s.cursor_pos.row, s.cursor_pos.col), (0, 8));
    press(&mut s, "b", &l);
    assert_eq!((s.cursor_pos.row, s.cursor_pos.col), (0, 3));
    press(&mut s, "$", &l);
    assert_eq!((s.cursor_pos.row, s.cursor_pos.col), (0, 10));
    press(&mut s, "G", &l);
    assert_eq!((s.cursor_pos.row, s.cursor_pos.col), (3, 0));
    assert_eq!(s.scroll_y, 2);
    press(&mut s, "g", &l);
    assert_eq!(s.pending_key, Some('g'));
    press(&mut s, "g", &l);
    assert_eq!((s.cursor_pos.row, s.cursor_pos.col), (0, 0));
    assert_eq!((s.pending_key, s.scroll_y), (None, 0));
    press(&mut s, "2G", &l);
    assert_eq!(s.cursor_pos.row, 1);
    press(&mut s, "gx", &l);
    assert_eq!((s.cursor_pos.row, s.pending_key), (1, None));
    s.normal_key(KeyEvent::plain(KeyCode::Down), &l, false);
    assert_eq!(s.cursor_pos.row, 2);
    s.normal_key(KeyEvent::plain(KeyCode::Up), &l, false);
    s.normal_key(KeyEvent::plain(KeyCode::Right), &l, false);
    assert_eq!((s.cursor_pos.row, s.cursor_pos.col), (1, 1));
    s.normal_key(KeyEvent::plain(KeyCode::Left), &l, false);
    assert_eq!(s.cursor_pos.col, 0);
}

#[test]
fn control_w_switches_sides() {
    let l = buffer();
    let mut s = normal_at(1, 2);
    assert_eq!(s.normal_key(KeyEvent::with_ctrl('w'), &l, false), Outcome::Handled);
    assert_eq!(s.pending_key, Some('w'));
    assert_eq!(s.normal_key(KeyEvent::typed('l'), &l, false), Outcome::SideChanged);
    assert_eq!(s.cursor_pos, CursorPos { row: 1, col: 2, side: DiffSide::Right });
    assert_eq!(s.pending_key, None);
    s.normal_key(KeyEvent::with_ctrl('w'), &l, false);
    assert_eq!(s.normal_key(KeyEvent::typed('h'), &l, false), Outcome::SideChanged);
    assert_eq!(s.cursor_pos.side, DiffSide::Left);
    s.normal_key(KeyEvent::with_ctrl('w'), &l, false);
    assert_eq!(s.normal_key(KeyEvent::typed('x'), &l, false), Outcome::Handled);
    assert_eq!((s.cursor_pos.side, s.pending_key), (DiffSide::Left, None));
}

#[test]
fn yank_with_a_motion_in_normal_mode() {
    let l = buffer();
    let mut s = normal_at(1, 8);
    assert_eq!(press(&mut s, "yy", &l), Outcome::Yank("    let x = 1;".to_string()));
    assert_eq!(press(&mut s, "y$", &l), Outcome::Yank("x = 1;".to_string()));
    assert_eq!(press(&mut s, "y0", &l), Outcome::Yank("    let ".to_string()));
    assert_eq!(press(&mut s, "yw", &l), Outcome::Yank("x ".to_string()));
    assert_eq!(press(&mut s, "ye", &l), Outcome::Yank("x =".to_string()));
    assert_eq!(press(&mut s, "yb", &l), Outcome::Yank("let x".to_string()));
    assert_eq!(press(&mut s, "yq", &l), Outcome::Handled);
    assert_eq!(s.cursor_pos, CursorPos { row: 1, col: 8, side: DiffSide::Left });
    assert_eq!(s.mode, DiffViewMode::Normal);
    assert_eq!(s.pending_key, None);
}

#[test]
fn normal_mode_search_keys_and_escape() {
    let l = buffer();
    let mut s = normal_at(1, 2);
    assert_eq!(press(&mut s, "/", &l), Outcome::StartSearch);
    assert_eq!(press(&mut s, "n", &l), Outcome::Jump(true));
    assert_eq!(press(&mut s, "N", &l), Outcome::Jump(false));
    assert_eq!(s.normal_key(KeyEvent::plain(KeyCode::Esc), &l, true), Outcome::ClearSearch);
    assert_eq!(s.mode, DiffViewMode::Normal);
    assert_eq!(s.normal_key(KeyEvent::plain(KeyCode::Esc), &l, false), Outcome::Handled);
    assert_eq!(s.mode, DiffViewMode::Scroll);
}

#[test]
fn visual_mode_extends_and_yanks_the_selection() {
    let l = buffer();
    let mut s = normal_at(0, 0);
    press(&mut s, "v", &l);
    assert_eq!(s.mode, DiffViewMode::Visual);
    assert_eq!(s.visual_anchor, Some(CursorPos { row: 0, col: 0, side: DiffSide::Left }));
    press(&mut s, "ll", &l);
    assert_eq!(s.cursor_pos.col, 2);
    assert_eq!(press(&mut s, "y", &l), Outcome::Yank("fn ".to_string()));
    assert_eq!(s.mode, DiffViewMode::Normal);
    assert_eq!(s.visual_anchor, None);

    let mut t = normal_at(0, 4);
    press(&mut t, "Vj", &l);
    assert_eq!(t.mode, DiffViewMode::VisualLine);
    assert_eq!(press(&mut t, "y", &l), Outcome::Yank("fn main() {\n    let x = 1;".to_string()));

    let mut u = normal_at(1, 6);
    press(&mut u, "vk", &l);
    assert_eq!(press(&mut u, "y", &l), Outcome::Yank("n() {\n    let".to_string()));
}

#[test]
fn visual_mode_toggles_and_leaves() {
    let l = buffer();
    let mut s = normal_at(1, 4);
    press(&mut s, "v", &l);
    press(&mut s, "V", &l);
    assert_eq!(s.mode, DiffViewMode::VisualLine);
    assert_eq!(s.visual_anchor, Some(CursorPos { row: 1, col: 4, side: DiffSide::Left }));
    press(&mut s, "V", &l);
    assert_eq!((s.mode, s.visual_anchor), (DiffViewMode::Normal, None));
    press(&mut s, "V", &l);
    press(&mut s, "v", &l);
    assert_eq!(s.mode, DiffViewMode::Visual);
    press(&mut s, "v", &l);
    assert_eq!(s.mode, DiffViewMode::Normal);
    press(&mut s, "v3", &l);
    s.visual_key(KeyEvent::plain(KeyCode::Esc), &l);
    assert_eq!((s.mode, s.visual_anchor, s.count, s.pending_key), (DiffViewMode::Normal, None, None, None));
}

#[test]
fn visual_mode_text_objects() {
    let l = vec!["call(a, \"b c\") {x}".to_string()];
    let mut s = normal_at(0, 10);
    press(&mut s, "vi\"", &l);
    assert_eq!(s.visual_anchor.unwrap().col, 9);
    assert_eq!(s.cursor_pos.col, 11);
    assert_eq!(press(&mut s, "y", &l), Outcome::Yank("b c".to_string()));
    press(&mut s, "va(", &l);
    assert_eq!(press(&mut s, "y", &l), Outcome::Yank("(a, \"b c\")".to_string()));
    let mut t = normal_at(0, 1);
    press(&mut t, "viw", &l);
    assert_eq!(press(&mut t, "y", &l), Outcome::Yank("call(a,".to_string()));
    let mut u = normal_at(0, 5);
    press(&mut u, "vi{", &l);
    assert_eq!((u.visual_anchor.unwrap().col, u.cursor_pos.col), (5, 5));
    press(&mut u, "iz", &l);
    assert_eq!((u.visual_anchor.unwrap().col, u.cursor_pos.col, u.pending_key), (5, 5, None));
}

#[test]
fn every_key_keeps_the_cursor_in_the_buffer() {
    let l = buffer();
    let keys = "jjjjllllllllllllllwwwwwwwwbbbeee$G9jgg0kkkkVjjjvhhhiwa(yy5l3w99G2e";
    let mut s = normal_at(700, 700);
    for c in keys.chars() {
        let out = match s.mode {
            DiffViewMode::Scroll => s.scroll_key(KeyEvent::typed(c), &l, false),
            DiffViewMode::Normal => s.normal_key(KeyEvent::typed(c), &l, false),
            _ => s.visual_key(KeyEvent::typed(c), &l),
        };
        if out != Outcome::SideChanged {
            assert!(s.cursor_pos.row < l.len());
            assert!(s.cursor_pos.col < l[s.cursor_pos.row].chars().count().max(1));
        }
    }
}

#[test]
fn view_follows_the_cursor() {
    let mut s = normal_at(0, 0);
    s.view_height = 2;
    s.scroll_y = 0;
    s.cursor_pos.row = 3;
    s.scroll_to_cursor();
    assert_eq!(s.scroll_y, 2);
    s.cursor_pos.row = 1;
    s.scroll_to_cursor();
    assert_eq!(s.scroll_y, 1);
    s.cursor_pos.row = 2;
    s.scroll_to_cursor();
    assert_eq!(s.scroll_y, 1);
    s.view_height = 0;
    s.cursor_pos.row = 0;
    s.scroll_to_cursor();
    assert_eq!(s.scroll_y, 1);
    assert_eq!(s.take_count(), 1);
    s.count = Some(6);
    assert_eq!(s.take_count(), 6);
    assert_eq!(s.count, None);
}

#[test]
fn escape_works_on_an_empty_buffer() {
    let none: Vec<String> = Vec::new();
    let esc = KeyEvent::plain(KeyCode::Esc);

    let mut s = normal_at(0, 0);
    s.count = Some(3);
    assert_eq!(s.normal_key(esc, &none, false), Outcome::Handled);
    assert_eq!(s.mode, DiffViewMode::Scroll);
    assert_eq!(s.pending_key, None);
    assert_eq!(s.count, None);

    let mut searching = normal_at(0, 0);
    assert_eq!(searching.normal_key(esc, &none, true), Outcome::ClearSearch);
    assert_eq!(searching.mode, DiffViewMode::Normal);

    let mut other = normal_at(0, 0);
    other.count = Some(2);
    assert_eq!(other.normal_key(KeyEvent::typed('v'), &none, false), Outcome::Handled);
    assert_eq!(other.mode, DiffViewMode::Normal);
    assert_eq!(other.count, None);

    for mode in [DiffViewMode::Visual, DiffViewMode::VisualLine] {
        let mut v = normal_at(0, 0);
        v.mode = mode;
        v.visual_anchor = Some(v.cursor_pos);
        assert_eq!(v.visual_key(esc, &none), Outcome::Handled);
        assert_eq!(v.mode, DiffViewMode::Normal);
        assert_eq!(v.visual_anchor, None);
        assert_eq!(v.normal_key(esc, &none, false), Outcome::Handled);
        assert_eq!(v.mode, DiffViewMode::Scroll);
    }
}

#[test]
fn the_renderer_reports_sizes_and_asks_for_rows() {
    let mut s = normal_at(3, 1);
    s.scroll_y = 40;
    let before = s;
    s.set_extent(603, 25);
    assert_eq!(s.total_lines, 603);
    assert_eq!(s.view_height, 25);
    s.total_lines = before.total_lines;
    s.view_height = before.view_height;
    assert_eq!(s, before);
    assert_eq!(s.visible_end(25), 66);
    assert_eq!(DiffViewState::new().visible_end(0), 1);
    s.scroll_y = u16::MAX;
    assert_eq!(s.visible_end(u16::MAX), 131071);
}
