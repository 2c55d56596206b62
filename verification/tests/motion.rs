use vig::cursor::{
    apply_motion, clamp, line_len_at, move_word_backward, move_word_end, move_word_forward,
    CursorPos, DiffSide, Motion,
};
use vig::yank::{
    extract_range, ordered_selection, select_text_object_delim, select_text_object_word,
    yank_motion_text, yank_selection, YankMotion,
};
use vig::cursor::DiffViewMode;

fn lines() -> Vec<String> {
    vec!["fn main() {", "    let x = 1;", "", "}"].into_iter().map(String::from).collect()
}

fn at(row: usize, col: usize) -> CursorPos {
    CursorPos { row, col, side: DiffSide::Left }
}

fn in_bounds(pos: CursorPos, lines: &Vec<String>) -> bool {
    pos.row < lines.len() && pos.col < lines[pos.row].chars().count().max(1)
}

#[test]
fn line_width_is_at_least_one() {
    let l = lines();
    assert_eq!(line_len_at(&l, 0), 11);
    assert_eq!(line_len_at(&l, 2), 1);
    assert_eq!(line_len_at(&l, 3), 1);
    assert_eq!(line_len_at(&l, 99), 1);
}

#[test]
fn clamp_brings_the_cursor_inside() {
    let l = lines();
    assert_eq!(clamp(at(10, 50), &l), at(3, 0));
    assert_eq!(clamp(at(1, 50), &l), at(1, 13));
    assert_eq!(clamp(at(1, 5), &l), at(1, 5));
    assert_eq!(clamp(at(2, 3), &l), at(2, 0));
    let right = CursorPos { row: 9, col: 9, side: DiffSide::Right };
    assert_eq!(clamp(right, &l).side, DiffSide::Right);
}

#[test]
fn character_motions_stop_at_the_line_ends() {
    let l = lines();
    assert_eq!(apply_motion(at(0, 0), Motion::Right, 3, &l), at(0, 3));
    assert_eq!(apply_motion(at(0, 0), Motion::Right, 100, &l), at(0, 10));
    assert_eq!(apply_motion(at(0, 0), Motion::Right, usize::MAX, &l), at(0, 10));
    assert_eq!(apply_motion(at(0, 5), Motion::Left, 2, &l), at(0, 3));
    assert_eq!(apply_motion(at(0, 5), Motion::Left, 9, &l), at(0, 0));
    assert_eq!(apply_motion(at(1, 5), Motion::LineStart, 1, &l), at(1, 0));
    assert_eq!(apply_motion(at(1, 5), Motion::LineEnd, 1, &l), at(1, 13));
    assert_eq!(apply_motion(at(2, 0), Motion::LineEnd, 1, &l), at(2, 0));
}

#[test]
fn line_motions_clamp_the_column() {
    let l = lines();
    assert_eq!(apply_motion(at(0, 10), Motion::Down, 1, &l), at(1, 10));
    assert_eq!(apply_motion(at(0, 10), Motion::Down, 2, &l), at(2, 0));
    assert_eq!(apply_motion(at(0, 10), Motion::Down, 100, &l), at(3, 0));
    assert_eq!(apply_motion(at(0, 10), Motion::Down, usize::MAX, &l), at(3, 0));
    assert_eq!(apply_motion(at(1, 13), Motion::Up, 1, &l), at(0, 10));
    assert_eq!(apply_motion(at(1, 5), Motion::Up, 5, &l), at(0, 5));
}

#[test]
fn go_to_line_motions() {
    let l = lines();
    assert_eq!(apply_motion(at(1, 5), Motion::GotoEnd, 1, &l), at(3, 0));
    assert_eq!(apply_motion(at(1, 5), Motion::GotoEnd, 2, &l), at(1, 0));
    assert_eq!(apply_motion(at(1, 5), Motion::GotoEnd, 100, &l), at(3, 0));
    assert_eq!(apply_motion(at(1, 5), Motion::GotoStart, 1, &l), at(0, 0));
    assert_eq!(apply_motion(at(1, 5), Motion::GotoLine, 3, &l), at(2, 0));
    assert_eq!(apply_motion(at(1, 5), Motion::GotoLine, 0, &l), at(0, 0));
    assert_eq!(apply_motion(at(1, 5), Motion::GotoLine, 99, &l), at(3, 0));
}

#[test]
fn word_forward_crosses_lines_but_not_the_end() {
    let l = lines();
    assert_eq!(move_word_forward(at(0, 0), &l), at(0, 3));
    assert_eq!(move_word_forward(at(0, 3), &l), at(0, 10));
    assert_eq!(move_word_forward(at(0, 10), &l), at(1, 4));
    assert_eq!(move_word_forward(at(1, 4), &l), at(1, 8));
    assert_eq!(move_word_forward(at(1, 12), &l), at(2, 0));
    assert_eq!(move_word_forward(at(2, 0), &l), at(3, 0));
    assert_eq!(move_word_forward(at(3, 0), &l), at(3, 0));
    assert_eq!(apply_motion(at(0, 0), Motion::WordForward, 3, &l), at(1, 4));
    assert_eq!(apply_motion(at(0, 0), Motion::WordForward, 50, &l), at(3, 0));
}

#[test]
fn word_backward_crosses_lines() {
    let l = lines();
    assert_eq!(move_word_backward(at(1, 4), &l), at(1, 0));
    assert_eq!(move_word_backward(at(1, 0), &l), at(0, 10));
    assert_eq!(move_word_backward(at(0, 10), &l), at(0, 3));
    assert_eq!(move_word_backward(at(0, 3), &l), at(0, 0));
    assert_eq!(move_word_backward(at(0, 0), &l), at(0, 0));
    assert_eq!(move_word_backward(at(3, 0), &l), at(2, 0));
    assert_eq!(apply_motion(at(1, 4), Motion::WordBackward, 3, &l), at(0, 3));
}

#[test]
fn word_end_moves_to_the_last_character_of_a_word() {
    let l = lines();
    assert_eq!(move_word_end(at(0, 0), &l), at(0, 1));
    assert_eq!(move_word_end(at(0, 1), &l), at(0, 8));
    assert_eq!(move_word_end(at(0, 8), &l), at(0, 10));
    assert_eq!(move_word_end(at(0, 10), &l), at(1, 6));
    assert_eq!(move_word_end(at(3, 0), &l), at(3, 0));
    assert_eq!(apply_motion(at(0, 0), Motion::WordEnd, 2, &l), at(0, 8));
}

#[test]
fn motions_on_an_empty_buffer_change_nothing() {
    let empty: Vec<String> = Vec::new();
    assert_eq!(move_word_forward(at(2, 2), &empty), at(2, 2));
    assert_eq!(move_word_backward(at(2, 2), &empty), at(2, 2));
    assert_eq!(move_word_end(at(2, 2), &empty), at(2, 2));
    assert_eq!(apply_motion(at(2, 2), Motion::Down, 1, &empty), at(2, 2));
    assert_eq!(apply_motion(at(2, 2), Motion::GotoStart, 1, &empty), at(0, 0));
}

#[test]
fn no_sequence_of_motions_leaves_the_buffer() {
    let l = lines();
    let motions = [
        Motion::Left,
        Motion::Right,
        Motion::Down,
        Motion::Up,
        Motion::WordForward,
        Motion::WordBackward,
        Motion::WordEnd,
        Motion::LineStart,
        Motion::LineEnd,
        Motion::GotoEnd,
        Motion::GotoStart,
        Motion::GotoLine,
    ];
    let mut pos = at(1, 9);
    let mut step = 0usize;
    for round in 0..40usize {
        for (k, m) in motions.iter().enumerate() {
            let n = [0usize, 1, 2, 3, 7, 1000, usize::MAX][(round + k + step) % 7];
            pos = apply_motion(pos, *m, n, &l);
            assert!(in_bounds(pos, &l));
            step += 1;
        }
    }
    for m in motions.iter() {
        assert!(in_bounds(apply_motion(at(900, 900), *m, 1, &l), &l));
    }
}

#[test]
fn range_text_within_a_line_and_across_lines() {
    let l = lines();
    assert_eq!(extract_range(&l, at(0, 3), at(0, 6)), "main");
    assert_eq!(extract_range(&l, at(0, 3), at(0, 99)), "main() {");
    assert_eq!(extract_range(&l, at(0, 8), at(1, 6)), ") {\n    let");
    assert_eq!(extract_range(&l, at(0, 8), at(3, 0)), ") {\n    let x = 1;\n\n}");
    assert_eq!(extract_range(&l, at(0, 6), at(0, 3)), "");
    assert_eq!(extract_range(&l, at(2, 0), at(1, 0)), "");
    assert_eq!(extract_range(&l, at(9, 0), at(9, 3)), "");
    assert_eq!(extract_range(&l, at(3, 0), at(9, 3)), "}");
    assert_eq!(extract_range(&l, at(0, 0), at(0, usize::MAX)), "fn main() {");
}

#[test]
fn yank_motions_cover_the_right_text() {
    let l = lines();
    assert_eq!(yank_motion_text(at(1, 0), YankMotion::Lines, 1, &l), "    let x = 1;");
    assert_eq!(yank_motion_text(at(2, 0), YankMotion::Lines, 2, &l), "\n}");
    assert_eq!(
        yank_motion_text(at(0, 0), YankMotion::Lines, 10, &l),
        "fn main() {\n    let x = 1;\n\n}"
    );
    assert_eq!(yank_motion_text(at(0, 3), YankMotion::Word, 1, &l), "main() ");
    assert_eq!(yank_motion_text(at(0, 10), YankMotion::Word, 1, &l), "{");
    assert_eq!(yank_motion_text(at(3, 0), YankMotion::Word, 1, &l), "}");
    assert_eq!(yank_motion_text(at(0, 3), YankMotion::WordEnd, 1, &l), "main()");
    assert_eq!(yank_motion_text(at(0, 3), YankMotion::WordBack, 1, &l), "fn m");
    assert_eq!(yank_motion_text(at(1, 8), YankMotion::ToLineEnd, 1, &l), "x = 1;");
    assert_eq!(yank_motion_text(at(1, 8), YankMotion::ToLineStart, 1, &l), "    let ");
    assert_eq!(yank_motion_text(at(0, 0), YankMotion::Lines, 1, &Vec::new()), "");
}

#[test]
fn selection_is_put_in_reading_order() {
    assert_eq!(ordered_selection(at(2, 1), at(1, 9)), (at(1, 9), at(2, 1)));
    assert_eq!(ordered_selection(at(1, 9), at(2, 1)), (at(1, 9), at(2, 1)));
    assert_eq!(ordered_selection(at(1, 9), at(1, 2)), (at(1, 2), at(1, 9)));
    assert_eq!(ordered_selection(at(1, 2), at(1, 2)), (at(1, 2), at(1, 2)));
}

#[test]
fn selection_text_does_not_depend_on_which_end_is_the_anchor() {
    let l = lines();
    let pairs = [
        (at(0, 8), at(1, 6)),
        (at(0, 3), at(0, 6)),
        (at(1, 0), at(3, 0)),
        (at(2, 0), at(2, 0)),
        (at(0, 4), at(9, 9)),
    ];
    for (a, c) in pairs.iter() {
        for mode in [DiffViewMode::Visual, DiffViewMode::VisualLine].iter() {
            assert_eq!(yank_selection(*mode, *a, *c, &l), yank_selection(*mode, *c, *a, &l));
        }
    }
    assert_eq!(yank_selection(DiffViewMode::Visual, at(1, 6), at(0, 8), &l), ") {\n    let");
    assert_eq!(yank_selection(DiffViewMode::VisualLine, at(2, 0), at(1, 5), &l), "    let x = 1;\n");
    assert_eq!(yank_selection(DiffViewMode::VisualLine, at(0, 0), at(0, 3), &l), "fn main() {");
    assert_eq!(yank_selection(DiffViewMode::Normal, at(0, 0), at(0, 3), &l), "");
    assert_eq!(yank_selection(DiffViewMode::VisualLine, at(7, 0), at(9, 3), &l), "");
}

fn object_cols(sel: Option<(CursorPos, CursorPos)>) -> Option<(usize, usize)> {
    sel.map(|(a, c)| (a.col, c.col))
}

#[test]
fn text_objects_select_words_and_delimited_text() {
    let l = vec!["call(a, \"b c\") {x}".to_string(), String::new()];
    assert_eq!(object_cols(select_text_object_word(true, at(0, 9), &l)), Some((8, 9)));
    assert_eq!(object_cols(select_text_object_word(false, at(0, 9), &l)), Some((8, 10)));
    assert_eq!(object_cols(select_text_object_word(true, at(0, 1), &l)), Some((0, 6)));
    assert_eq!(object_cols(select_text_object_word(true, at(1, 0), &l)), None);
    assert_eq!(object_cols(select_text_object_word(true, at(5, 0), &l)), None);
    assert_eq!(object_cols(select_text_object_delim(true, '"', '"', at(0, 10), &l)), Some((9, 11)));
    assert_eq!(object_cols(select_text_object_delim(false, '"', '"', at(0, 10), &l)), Some((8, 12)));
    assert_eq!(object_cols(select_text_object_delim(true, '(', ')', at(0, 5), &l)), Some((5, 12)));
    assert_eq!(object_cols(select_text_object_delim(false, '(', ')', at(0, 5), &l)), Some((4, 13)));
    assert_eq!(object_cols(select_text_object_delim(true, '{', '}', at(0, 16), &l)), Some((16, 16)));
    assert_eq!(object_cols(select_text_object_delim(true, '{', '}', at(0, 5), &l)), None);
    assert_eq!(object_cols(select_text_object_delim(true, '"', '"', at(0, 12), &l)), None);
    assert_eq!(object_cols(select_text_object_delim(true, '(', ')', at(1, 0), &l)), None);
    let sel = select_text_object_delim(true, '(', ')', at(0, 5), &l).unwrap();
    assert_eq!(extract_range(&l, sel.0, sel.1), "a, \"b c\"");
    let sel = select_text_object_delim(false, '(', ')', at(0, 5), &l).unwrap();
    assert_eq!(extract_range(&l, sel.0, sel.1), "(a, \"b c\")");
}

#[test]
fn white_space_is_the_unicode_property() {
    let listed = |c: char| {
        let code = c as u32;
        (0x09..=0x0D).contains(&code)
            || code == 0x20
            || code == 0x85
            || code == 0xA0
            || code == 0x1680
            || (0x2000..=0x200A).contains(&code)
            || code == 0x2028
            || code == 0x2029
            || code == 0x202F
            || code == 0x205F
            || code == 0x3000
    };
    for code in 0..=0x10FFFFu32 {
        if let Some(c) = char::from_u32(code) {
            assert_eq!(c.is_whitespace(), listed(c), "U+{code:04X}");
        }
    }
}
