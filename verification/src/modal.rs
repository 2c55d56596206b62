//! The modal state machine of the diff view: Scroll, Normal, Visual and
//! Visual-Line, with count prefixes and pending two-key sequences. Each
//! handler is a total step from the state and a key to the next state and an
//! outcome that tells the caller what else the key asks for.

use crate::cursor::{apply_motion, clamp, CursorPos, DiffSide, DiffViewMode, Motion};
use crate::keys::{digit_of, digit_value, push_digit, with_digit, KeyCode, KeyEvent};
use crate::yank::{
    delim_object, select_text_object_delim, select_text_object_word, selection_text, word_object,
    yank_motion_text, yank_selection, yank_text, YankMotion,
};
use vstd::prelude::*;

verus! {

/// What a key asks for beyond the change of the view's own state.
#[derive(Debug, PartialEq, Eq)]
pub enum Outcome {
    /// Nothing more.
    Handled,
    /// Open the search prompt for the diff view.
    StartSearch,
    /// Go to the next (`true`) or the previous (`false`) match.
    Jump(bool),
    /// Hand this text to the clipboard.
    Yank(String),
    /// Clear the search highlights.
    ClearSearch,
    /// The cursor went to the other side.
    SideChanged,
    /// Give the focus back to the pane it came from.
    LeaveFocus,
}

/// What a key asked for, as plain values.
pub enum OutcomeView {
    Handled,
    StartSearch,
    Jump(bool),
    Yank(Seq<char>),
    ClearSearch,
    SideChanged,
    LeaveFocus,
}

impl DeepView for Outcome {
    type V = OutcomeView;

    open spec fn deep_view(&self) -> OutcomeView {
        match self {
            Outcome::Handled => OutcomeView::Handled,
            Outcome::StartSearch => OutcomeView::StartSearch,
            Outcome::Jump(f) => OutcomeView::Jump(*f),
            Outcome::Yank(t) => OutcomeView::Yank(t@),
            Outcome::ClearSearch => OutcomeView::ClearSearch,
            Outcome::SideChanged => OutcomeView::SideChanged,
            Outcome::LeaveFocus => OutcomeView::LeaveFocus,
        }
    }
}

/// The state of the diff view: the mode, the cursor, the anchor of a visual
/// selection, the pending prefix key, the count typed so far, and the scroll
/// position with the sizes the renderer reported.
#[derive(Debug, Clone, Copy, PartialEq, Eq)]
pub struct DiffViewState {
    pub mode: DiffViewMode,
    pub cursor_pos: CursorPos,
    pub visual_anchor: Option<CursorPos>,
    pub pending_key: Option<char>,
    pub count: Option<usize>,
    pub scroll_y: u16,
    pub scroll_x: u16,
    pub total_lines: u16,
    pub view_height: u16,
}

/// The motion a key stands for in Normal and Visual mode.
pub open spec fn motion_of(code: KeyCode) -> Option<Motion> {
    match code {
        KeyCode::Left => Some(Motion::Left),
        KeyCode::Right => Some(Motion::Right),
        KeyCode::Down => Some(Motion::Down),
        KeyCode::Up => Some(Motion::Up),
        KeyCode::Char(c) => if c == 'h' {
            Some(Motion::Left)
        } else if c == 'l' {
            Some(Motion::Right)
        } else if c == 'j' {
            Some(Motion::Down)
        } else if c == 'k' {
            Some(Motion::Up)
        } else if c == 'w' {
            Some(Motion::WordForward)
        } else if c == 'b' {
            Some(Motion::WordBackward)
        } else if c == 'e' {
            Some(Motion::WordEnd)
        } else if c == '0' {
            Some(Motion::LineStart)
        } else if c == '$' {
            Some(Motion::LineEnd)
        } else if c == 'G' {
            Some(Motion::GotoEnd)
        } else {
            None
        },
        _ => None,
    }
}

/// Picks the motion a key stands for.
pub fn motion_for(code: KeyCode) -> (m: Option<Motion>)
    ensures
        m == motion_of(code),
{
    match code {
        KeyCode::Left => Some(Motion::Left),
        KeyCode::Right => Some(Motion::Right),
        KeyCode::Down => Some(Motion::Down),
        KeyCode::Up => Some(Motion::Up),
        KeyCode::Char(c) => if c == 'h' {
            Some(Motion::Left)
        } else if c == 'l' {
            Some(Motion::Right)
        } else if c == 'j' {
            Some(Motion::Down)
        } else if c == 'k' {
            Some(Motion::Up)
        } else if c == 'w' {
            Some(Motion::WordForward)
        } else if c == 'b' {
            Some(Motion::WordBackward)
        } else if c == 'e' {
            Some(Motion::WordEnd)
        } else if c == '0' {
            Some(Motion::LineStart)
        } else if c == '$' {
            Some(Motion::LineEnd)
        } else if c == 'G' {
            Some(Motion::GotoEnd)
        } else {
            None
        },
        _ => None,
    }
}

/// What the key after `y` yanks.
pub open spec fn yank_motion_of(code: KeyCode) -> Option<YankMotion> {
    match code {
        KeyCode::Char(c) => if c == 'y' {
            Some(YankMotion::Lines)
        } else if c == 'w' {
            Some(YankMotion::Word)
        } else if c == 'e' {
            Some(YankMotion::WordEnd)
        } else if c == 'b' {
            Some(YankMotion::WordBack)
        } else if c == '$' {
            Some(YankMotion::ToLineEnd)
        } else if c == '0' {
            Some(YankMotion::ToLineStart)
        } else {
            None
        },
        _ => None,
    }
}

/// Picks the motion a key stands for behind `y`.
pub fn yank_motion_for(code: KeyCode) -> (m: Option<YankMotion>)
    ensures
        m == yank_motion_of(code),
{
    match code {
        KeyCode::Char(c) => if c == 'y' {
            Some(YankMotion::Lines)
        } else if c == 'w' {
            Some(YankMotion::Word)
        } else if c == 'e' {
            Some(YankMotion::WordEnd)
        } else if c == 'b' {
            Some(YankMotion::WordBack)
        } else if c == '$' {
            Some(YankMotion::ToLineEnd)
        } else if c == '0' {
            Some(YankMotion::ToLineStart)
        } else {
            None
        },
        _ => None,
    }
}

/// The selection a text object key gives after the prefix `i` (inner) or
/// `a` (around): a word for `w`, the text between quotes, parentheses or
/// braces for their characters. Other keys give none.
pub open spec fn text_object(inner: bool, code: KeyCode, pos: CursorPos, lines: Seq<Seq<char>>) -> Option<
    (CursorPos, CursorPos),
> {
    match code {
        KeyCode::Char(c) => if c == 'w' {
            word_object(inner, pos, lines)
        } else if c == '"' {
            delim_object(inner, '"', '"', pos, lines)
        } else if c == '\'' {
            delim_object(inner, '\'', '\'', pos, lines)
        } else if c == '(' || c == ')' {
            delim_object(inner, '(', ')', pos, lines)
        } else if c == '{' || c == '}' {
            delim_object(inner, '{', '}', pos, lines)
        } else {
            None
        },
        _ => None,
    }
}

/// Computes the selection of a text object.
pub fn apply_text_object(inner: bool, code: KeyCode, pos: CursorPos, lines: &Vec<String>) -> (r:
    Option<(CursorPos, CursorPos)>)
    ensures
        r == text_object(inner, code, pos, lines.deep_view()),
        r matches Some(sel) ==> sel.0.in_bounds(lines.deep_view()) && sel.1.in_bounds(
            lines.deep_view(),
        ) && sel.1.side == pos.side,
{
    match code {
        KeyCode::Char(c) => if c == 'w' {
            select_text_object_word(inner, pos, lines)
        } else if c == '"' {
            select_text_object_delim(inner, '"', '"', pos, lines)
        } else if c == '\'' {
            select_text_object_delim(inner, '\'', '\'', pos, lines)
        } else if c == '(' || c == ')' {
            select_text_object_delim(inner, '(', ')', pos, lines)
        } else if c == '{' || c == '}' {
            select_text_object_delim(inner, '{', '}', pos, lines)
        } else {
            None
        },
        _ => None,
    }
}

impl DiffViewState {
    /// The state at start-up: Scroll mode at the top.
    pub open spec fn initial() -> DiffViewState {
        DiffViewState {
            mode: DiffViewMode::Scroll,
            cursor_pos: CursorPos { row: 0, col: 0, side: DiffSide::Left },
            visual_anchor: None,
            pending_key: None,
            count: None,
            scroll_y: 0,
            scroll_x: 0,
            total_lines: 0,
            view_height: 0,
        }
    }

    /// The state of a diff view that has not been used: Scroll mode at the top
    /// left.
    pub fn new() -> (s: Self)
        ensures
            s == Self::initial(),
    {
        DiffViewState {
            mode: DiffViewMode::Scroll,
            cursor_pos: CursorPos { row: 0, col: 0, side: DiffSide::Left },
            visual_anchor: None,
            pending_key: None,
            count: None,
            scroll_y: 0,
            scroll_x: 0,
            total_lines: 0,
            view_height: 0,
        }
    }

    /// The rows that need colours for a view of `height` rows: those above
    /// the view, those in it, and one more.
    pub open spec fn rows_to_colour(self, height: u16) -> int {
        self.scroll_y + height + 1
    }

    /// The row up to which colours are needed for a view of `height` rows.
    pub fn visible_end(&self, height: u16) -> (end: usize)
        ensures
            end == self.rows_to_colour(height),
    {
        let above: u32 = self.scroll_y.into();
        let shown: u32 = height.into();
        let end: u32 = above + shown + 1;
        end as usize
    }

    /// Takes in what the renderer measured: the number of display lines of
    /// the file shown and the height of the view. Nothing else changes.
    pub fn set_extent(&mut self, total_lines: u16, view_height: u16)
        ensures
            *final(self) == (DiffViewState { total_lines, view_height, ..*old(self) }),
    {
        self.total_lines = total_lines;
        self.view_height = view_height;
    }

    /// The largest scroll position: the lines that do not fit the view.
    pub open spec fn max_scroll(self) -> u16 {
        if self.total_lines >= self.view_height {
            (self.total_lines - self.view_height) as u16
        } else {
            0
        }
    }

    /// The scroll position moved as little as needed to show the cursor's
    /// row (taken as a 16-bit number) in a view with a height.
    pub open spec fn scrolled_to_cursor(self) -> DiffViewState {
        let row = self.cursor_pos.row as u16;
        if self.view_height == 0 {
            self
        } else if row < self.scroll_y {
            DiffViewState { scroll_y: row, ..self }
        } else if row >= self.scroll_y + self.view_height {
            DiffViewState { scroll_y: (row - self.view_height + 1) as u16, ..self }
        } else {
            self
        }
    }

    /// Scrolls so that the cursor's row is visible.
    pub fn scroll_to_cursor(&mut self)
        ensures
            *final(self) == old(self).scrolled_to_cursor(),
    {
        let row = #[verifier::truncate] (self.cursor_pos.row as u16);
        let height = self.view_height;
        if height == 0 {
            return;
        }
        if row < self.scroll_y {
            self.scroll_y = row;
        } else if row - self.scroll_y >= height {
            self.scroll_y = row - height + 1;
        }
    }

    /// The cursor brought inside a buffer that has lines.
    pub open spec fn with_cursor_clamped(self, lines: Seq<Seq<char>>) -> DiffViewState {
        if lines.len() > 0 {
            DiffViewState { cursor_pos: self.cursor_pos.clamped(lines), ..self }
        } else {
            self
        }
    }

    /// The reaction of Scroll mode to a key. `searching` says whether a
    /// search query is active.
    #[verifier::opaque]
    pub open spec fn scroll_step(self, key: KeyEvent, lines: Seq<Seq<char>>, searching: bool) -> (
        DiffViewState,
        OutcomeView,
    ) {
        let max = self.max_scroll();
        let half = self.view_height / 2;
        let down = |by: int|
            DiffViewState {
                scroll_y: if self.scroll_y + by <= max {
                    (self.scroll_y + by) as u16
                } else {
                    max
                },
                ..self
            };
        let up = |by: int|
            DiffViewState {
                scroll_y: if self.scroll_y >= by {
                    (self.scroll_y - by) as u16
                } else {
                    0
                },
                ..self
            };
        let left = DiffViewState {
            scroll_x: if self.scroll_x >= 4 {
                (self.scroll_x - 4) as u16
            } else {
                0
            },
            ..self
        };
        let right = DiffViewState {
            scroll_x: if self.scroll_x + 4 <= u16::MAX {
                (self.scroll_x + 4) as u16
            } else {
                u16::MAX
            },
            ..self
        };
        match key.code {
            KeyCode::Down => (down(1), OutcomeView::Handled),
            KeyCode::Up => (up(1), OutcomeView::Handled),
            KeyCode::Left => (left, OutcomeView::Handled),
            KeyCode::Right => (right, OutcomeView::Handled),
            KeyCode::Esc => (
                self,
                if searching {
                    OutcomeView::ClearSearch
                } else {
                    OutcomeView::LeaveFocus
                },
            ),
            KeyCode::Char(c) => if c == 'j' {
                (down(1), OutcomeView::Handled)
            } else if c == 'k' {
                (up(1), OutcomeView::Handled)
            } else if c == 'd' && key.ctrl {
                (down(half as int), OutcomeView::Handled)
            } else if c == 'u' && key.ctrl {
                (up(half as int), OutcomeView::Handled)
            } else if c == 'g' {
                (DiffViewState { scroll_y: 0, ..self }, OutcomeView::Handled)
            } else if c == 'G' {
                (DiffViewState { scroll_y: max, ..self }, OutcomeView::Handled)
            } else if c == 'h' {
                (left, OutcomeView::Handled)
            } else if c == 'l' {
                (right, OutcomeView::Handled)
            } else if c == '/' {
                (DiffViewState { pending_key: None, ..self }, OutcomeView::StartSearch)
            } else if c == 'n' {
                (self, OutcomeView::Jump(true))
            } else if c == 'N' {
                (self, OutcomeView::Jump(false))
            } else if c == 'i' && lines.len() > 0 {
                (
                    DiffViewState {
                        mode: DiffViewMode::Normal,
                        cursor_pos: CursorPos {
                            row: self.scroll_y as usize,
                            col: 0,
                            side: DiffSide::Left,
                        }.clamped(lines),
                        ..self
                    },
                    OutcomeView::Handled,
                )
            } else {
                (self, OutcomeView::Handled)
            },
            _ => (self, OutcomeView::Handled),
        }
    }

    /// Handles a key in Scroll mode.
    pub fn scroll_key(&mut self, key: KeyEvent, lines: &Vec<String>, searching: bool) -> (out:
        Outcome)
        ensures
            (*final(self), out.deep_view()) == old(self).scroll_step(
                key,
                lines.deep_view(),
                searching,
            ),
    {
        reveal(DiffViewState::scroll_step);
        let max = self.total_lines.saturating_sub(self.view_height);
        let half = self.view_height / 2;
        match key.code {
            KeyCode::Down => {
                self.scroll_down(1, max);
                Outcome::Handled
            },
            KeyCode::Up => {
                self.scroll_y = self.scroll_y.saturating_sub(1);
                Outcome::Handled
            },
            KeyCode::Left => {
                self.scroll_x = self.scroll_x.saturating_sub(4);
                Outcome::Handled
            },
            KeyCode::Right => {
                self.scroll_x = self.scroll_x.saturating_add(4);
                Outcome::Handled
            },
            KeyCode::Esc => if searching {
                Outcome::ClearSearch
            } else {
                Outcome::LeaveFocus
            },
            KeyCode::Char(c) => {
                if c == 'j' {
                    self.scroll_down(1, max);
                } else if c == 'k' {
                    self.scroll_y = self.scroll_y.saturating_sub(1);
                } else if c == 'd' && key.ctrl {
                    self.scroll_down(half, max);
                } else if c == 'u' && key.ctrl {
                    self.scroll_y = self.scroll_y.saturating_sub(half);
                } else if c == 'g' {
                    self.scroll_y = 0;
                } else if c == 'G' {
                    self.scroll_y = max;
                } else if c == 'h' {
                    self.scroll_x = self.scroll_x.saturating_sub(4);
                } else if c == 'l' {
                    self.scroll_x = self.scroll_x.saturating_add(4);
                } else if c == '/' {
                    self.pending_key = None;
                    return Outcome::StartSearch;
                } else if c == 'n' {
                    return Outcome::Jump(true);
                } else if c == 'N' {
                    return Outcome::Jump(false);
                } else if c == 'i' && lines.len() > 0 {
                    self.mode = DiffViewMode::Normal;
                    let row: usize = self.scroll_y.into();
                    self.cursor_pos = clamp(CursorPos { row, col: 0, side: DiffSide::Left }, lines);
                }
                Outcome::Handled
            },
            _ => Outcome::Handled,
        }
    }

    fn scroll_down(&mut self, by: u16, max: u16)
        ensures
            *final(self) == (DiffViewState {
                scroll_y: if old(self).scroll_y + by <= max {
                    (old(self).scroll_y + by) as u16
                } else {
                    max
                },
                ..*old(self)
            }),
    {
        let want = self.scroll_y.saturating_add(by);
        self.scroll_y = if want <= max {
            want
        } else {
            max
        };
    }

    /// The reaction to a digit of a count prefix, if the key is one: `1` to
    /// `9` always append to the count, `0` only to a count that has begun.
    pub open spec fn count_step(self, key: KeyEvent) -> Option<DiffViewState> {
        match key.code {
            KeyCode::Char(c) => match digit_of(c) {
                Some(d) => if d != 0 || self.count is Some {
                    Some(DiffViewState { count: Some(with_digit(self.count, d)), ..self })
                } else {
                    None
                },
                None => None,
            },
            _ => None,
        }
    }

    fn take_digit(&mut self, key: KeyEvent) -> (taken: bool)
        ensures
            match old(self).count_step(key) {
                Some(s) => taken && *final(self) == s,
                None => !taken && *final(self) == *old(self),
            },
    {
        match key.code {
            KeyCode::Char(c) => match digit_value(c) {
                Some(d) => if d != 0 || self.count.is_some() {
                    self.count = Some(push_digit(self.count, d));
                    true
                } else {
                    false
                },
                None => false,
            },
            _ => false,
        }
    }

    /// The count to use for the next command: the one typed, or one.
    pub open spec fn count_or_one(self) -> usize {
        match self.count {
            Some(n) => n,
            None => 1,
        }
    }

    /// Takes the count: the count typed or one; the prefix is used up.
    pub fn take_count(&mut self) -> (n: usize)
        ensures
            n == old(self).count_or_one(),
            *final(self) == (DiffViewState { count: None, ..*old(self) }),
    {
        let n = match self.count {
            Some(n) => n,
            None => 1,
        };
        self.count = None;
        n
    }

    /// The second `g` of `gg`: to the line the count names, or to the first
    /// line; any other key only drops the prefix.
    pub open spec fn goto_step(self, key: KeyEvent, lines: Seq<Seq<char>>) -> DiffViewState {
        if key.code == KeyCode::Char('g') {
            DiffViewState {
                cursor_pos: match self.count {
                    Some(n) => self.cursor_pos.moved(Motion::GotoLine, n, lines),
                    None => self.cursor_pos.moved(Motion::GotoStart, 1, lines),
                },
                count: None,
                ..self
            }
        } else {
            DiffViewState { count: None, ..self }
        }
    }

    fn goto_line(&mut self, key: KeyEvent, lines: &Vec<String>)
        ensures
            *final(self) == old(self).goto_step(key, lines.deep_view()),
            lines.len() > 0 && old(self).cursor_pos.in_bounds(lines.deep_view())
                ==> final(self).cursor_pos.in_bounds(lines.deep_view()),
    {
        match key.code {
            KeyCode::Char(c) => {
                if c == 'g' {
                    self.cursor_pos = match self.count {
                        Some(n) => apply_motion(self.cursor_pos, Motion::GotoLine, n, lines),
                        None => apply_motion(self.cursor_pos, Motion::GotoStart, 1, lines),
                    };
                }
            },
            _ => {},
        }
        self.count = None;
    }

    /// The reaction of Normal mode to the key that follows the prefix `p`
    /// (`w` after Control-w, `y`, or `g`). The prefix is used up.
    #[verifier::opaque]
    pub open spec fn normal_pending(self, p: char, key: KeyEvent, lines: Seq<Seq<char>>) -> (
        DiffViewState,
        OutcomeView,
    ) {
        let s = DiffViewState { pending_key: None, ..self };
        if p == 'w' {
            if key.code == KeyCode::Char('h') || key.code == KeyCode::Char('l') {
                (
                    DiffViewState {
                        cursor_pos: CursorPos {
                            side: if key.code == KeyCode::Char('h') {
                                DiffSide::Left
                            } else {
                                DiffSide::Right
                            },
                            ..s.cursor_pos
                        },
                        count: None,
                        ..s
                    },
                    OutcomeView::SideChanged,
                )
            } else {
                (DiffViewState { count: None, ..s }, OutcomeView::Handled)
            }
        } else if p == 'y' {
            let t = DiffViewState { count: None, ..s };
            match yank_motion_of(key.code) {
                Some(m) => (
                    t,
                    OutcomeView::Yank(yank_text(s.cursor_pos, m, s.count_or_one(), lines)),
                ),
                None => (t, OutcomeView::Handled),
            }
        } else if p == 'g' {
            (s.goto_step(key, lines).scrolled_to_cursor(), OutcomeView::Handled)
        } else {
            (DiffViewState { count: None, ..s }, OutcomeView::Handled)
        }
    }

    /// The reaction of Normal mode to a key that is no prefix business and
    /// no digit of a count: the count is used up; motions move the cursor;
    /// `g` and `y` become pending; `v` and `V` start a selection; `/`, `n`
    /// and `N` go to the search; Escape clears the search or, without one,
    /// leaves for Scroll mode. On an empty buffer every key but Escape only
    /// uses up the count.
    #[verifier::opaque]
    pub open spec fn normal_plain(self, key: KeyEvent, lines: Seq<Seq<char>>, searching: bool) -> (
        DiffViewState,
        OutcomeView,
    ) {
        let n = self.count_or_one();
        let s = DiffViewState { count: None, ..self };
        if lines.len() == 0 && key.code != KeyCode::Esc {
            (s, OutcomeView::Handled)
        } else if motion_of(key.code) is Some {
            (
                DiffViewState {
                    cursor_pos: s.cursor_pos.moved(motion_of(key.code)->0, n, lines),
                    ..s
                }.scrolled_to_cursor(),
                OutcomeView::Handled,
            )
        } else {
            match key.code {
                KeyCode::Esc => if searching {
                    (s.scrolled_to_cursor(), OutcomeView::ClearSearch)
                } else {
                    (
                        DiffViewState {
                            mode: DiffViewMode::Scroll,
                            pending_key: None,
                            ..s
                        }.scrolled_to_cursor(),
                        OutcomeView::Handled,
                    )
                },
                KeyCode::Char(c) => if c == 'g' || c == 'y' {
                    (
                        DiffViewState { pending_key: Some(c), ..s }.scrolled_to_cursor(),
                        OutcomeView::Handled,
                    )
                } else if c == 'v' || c == 'V' {
                    (
                        DiffViewState {
                            mode: if c == 'v' {
                                DiffViewMode::Visual
                            } else {
                                DiffViewMode::VisualLine
                            },
                            visual_anchor: Some(s.cursor_pos),
                            ..s
                        }.scrolled_to_cursor(),
                        OutcomeView::Handled,
                    )
                } else if c == '/' {
                    (s.scrolled_to_cursor(), OutcomeView::StartSearch)
                } else if c == 'n' || c == 'N' {
                    (s, OutcomeView::Jump(c == 'n'))
                } else {
                    (s.scrolled_to_cursor(), OutcomeView::Handled)
                },
                _ => (s.scrolled_to_cursor(), OutcomeView::Handled),
            }
        }
    }

    /// The reaction of Normal mode to a key, on a state whose cursor lies in
    /// the buffer: Control-w becomes pending; a pending prefix takes the
    /// key; a digit goes to the count; any other key acts on its own.
    pub open spec fn normal_inner(self, key: KeyEvent, lines: Seq<Seq<char>>, searching: bool) -> (
        DiffViewState,
        OutcomeView,
    ) {
        if key.ctrl && key.code == KeyCode::Char('w') {
            (DiffViewState { pending_key: Some('w'), ..self }, OutcomeView::Handled)
        } else if self.pending_key is Some {
            self.normal_pending(self.pending_key->0, key, lines)
        } else if self.count_step(key) is Some {
            (self.count_step(key)->0, OutcomeView::Handled)
        } else {
            self.normal_plain(key, lines, searching)
        }
    }

    /// The reaction of Normal mode to a key. The cursor is first brought
    /// inside the buffer.
    pub open spec fn normal_step(self, key: KeyEvent, lines: Seq<Seq<char>>, searching: bool) -> (
        DiffViewState,
        OutcomeView,
    ) {
        self.with_cursor_clamped(lines).normal_inner(key, lines, searching)
    }

    fn normal_pending_key(&mut self, p: char, key: KeyEvent, lines: &Vec<String>) -> (out: Outcome)
        ensures
            (*final(self), out.deep_view()) == old(self).normal_pending(p, key, lines.deep_view()),
            lines.len() > 0 && old(self).cursor_pos.in_bounds(lines.deep_view()) && !(out
                is SideChanged) ==> final(self).cursor_pos.in_bounds(lines.deep_view()),
            !(out is SideChanged) ==> final(self).cursor_pos.side == old(self).cursor_pos.side,
    {
        reveal(DiffViewState::normal_pending);
        self.pending_key = None;
        if p == 'w' {
            self.count = None;
            match key.code {
                KeyCode::Char(c) => {
                    if c == 'h' {
                        self.cursor_pos.side = DiffSide::Left;
                        return Outcome::SideChanged;
                    } else if c == 'l' {
                        self.cursor_pos.side = DiffSide::Right;
                        return Outcome::SideChanged;
                    }
                },
                _ => {},
            }
            Outcome::Handled
        } else if p == 'y' {
            let n = self.take_count();
            match yank_motion_for(key.code) {
                Some(m) => Outcome::Yank(yank_motion_text(self.cursor_pos, m, n, lines)),
                None => Outcome::Handled,
            }
        } else if p == 'g' {
            self.goto_line(key, lines);
            self.scroll_to_cursor();
            Outcome::Handled
        } else {
            self.count = None;
            Outcome::Handled
        }
    }

    fn normal_plain_key(&mut self, key: KeyEvent, lines: &Vec<String>, searching: bool) -> (out:
        Outcome)
        ensures
            (*final(self), out.deep_view()) == old(self).normal_plain(
                key,
                lines.deep_view(),
                searching,
            ),
            lines.len() > 0 && old(self).cursor_pos.in_bounds(lines.deep_view())
                ==> final(self).cursor_pos.in_bounds(lines.deep_view()),
            final(self).cursor_pos.side == old(self).cursor_pos.side,
            !(out is SideChanged),
    {
        reveal(DiffViewState::normal_plain);
        let n = self.take_count();
        if lines.len() == 0 {
            match key.code {
                KeyCode::Esc => {},
                _ => {
                    return Outcome::Handled;
                },
            }
        }
        match motion_for(key.code) {
            Some(m) => {
                self.cursor_pos = apply_motion(self.cursor_pos, m, n, lines);
                self.scroll_to_cursor();
                return Outcome::Handled;
            },
            None => {},
        }
        match key.code {
            KeyCode::Esc => {
                if searching {
                    self.scroll_to_cursor();
                    return Outcome::ClearSearch;
                }
                self.mode = DiffViewMode::Scroll;
                self.pending_key = None;
            },
            KeyCode::Char(c) => {
                if c == 'g' || c == 'y' {
                    self.pending_key = Some(c);
                } else if c == 'v' {
                    self.mode = DiffViewMode::Visual;
                    self.visual_anchor = Some(self.cursor_pos);
                } else if c == 'V' {
                    self.mode = DiffViewMode::VisualLine;
                    self.visual_anchor = Some(self.cursor_pos);
                } else if c == '/' {
                    self.scroll_to_cursor();
                    return Outcome::StartSearch;
                } else if c == 'n' {
                    return Outcome::Jump(true);
                } else if c == 'N' {
                    return Outcome::Jump(false);
                }
            },
            _ => {},
        }
        self.scroll_to_cursor();
        Outcome::Handled
    }

    /// Handles a key in Normal mode. Afterwards the cursor lies inside a
    /// buffer that has lines, unless it just changed sides.
    pub fn normal_key(&mut self, key: KeyEvent, lines: &Vec<String>, searching: bool) -> (out:
        Outcome)
        ensures
            (*final(self), out.deep_view()) == old(self).normal_step(
                key,
                lines.deep_view(),
                searching,
            ),
            lines.len() > 0 && !(out is SideChanged) ==> final(self).cursor_pos.in_bounds(
                lines.deep_view(),
            ),
            !(out is SideChanged) ==> final(self).cursor_pos.side == old(self).cursor_pos.side,
    {
        if lines.len() > 0 {
            self.cursor_pos = clamp(self.cursor_pos, lines);
        }
        if key.ctrl {
            match key.code {
                KeyCode::Char(c) => {
                    if c == 'w' {
                        self.pending_key = Some('w');
                        return Outcome::Handled;
                    }
                },
                _ => {},
            }
        }
        match self.pending_key {
            Some(p) => {
                return self.normal_pending_key(p, key, lines);
            },
            None => {},
        }
        if self.take_digit(key) {
            return Outcome::Handled;
        }
        self.normal_plain_key(key, lines, searching)
    }

    /// The selection after a text object key, if the key names an object
    /// and the object is there.
    pub open spec fn with_text_object(self, inner: bool, key: KeyEvent, lines: Seq<Seq<char>>) -> DiffViewState {
        match text_object(inner, key.code, self.cursor_pos, lines) {
            Some(sel) => DiffViewState { visual_anchor: Some(sel.0), cursor_pos: sel.1, ..self },
            None => self,
        }
    }

    /// The reaction of the visual modes to the key that follows the prefix
    /// `p`: a text object after `i` or `a`, a line to go to after `g`.
    #[verifier::opaque]
    pub open spec fn visual_pending(self, p: char, key: KeyEvent, lines: Seq<Seq<char>>) -> (
        DiffViewState,
        OutcomeView,
    ) {
        let s = DiffViewState { pending_key: None, ..self };
        if p == 'i' || p == 'a' {
            (s.with_text_object(p == 'i', key, lines).scrolled_to_cursor(), OutcomeView::Handled)
        } else if p == 'g' {
            (s.goto_step(key, lines).scrolled_to_cursor(), OutcomeView::Handled)
        } else {
            (s.scrolled_to_cursor(), OutcomeView::Handled)
        }
    }

    /// The reaction of the visual modes to a key that is no prefix business
    /// and no digit of a count: motions move the live end of the selection;
    /// `g`, `i` and `a` become pending; `y` yanks the selection and goes
    /// back to Normal mode; `v` and `V` change the kind of selection or end
    /// it; `/`, `n` and `N` go to the search; Escape ends the selection and
    /// goes back to Normal mode. On an empty buffer every key but Escape
    /// only uses up the count.
    #[verifier::opaque]
    pub open spec fn visual_plain(self, key: KeyEvent, lines: Seq<Seq<char>>) -> (
        DiffViewState,
        OutcomeView,
    ) {
        let n = self.count_or_one();
        let s = DiffViewState { count: None, ..self };
        let normal = DiffViewState { mode: DiffViewMode::Normal, visual_anchor: None, ..s };
        if lines.len() == 0 && key.code != KeyCode::Esc {
            (s, OutcomeView::Handled)
        } else if motion_of(key.code) is Some {
            (
                DiffViewState {
                    cursor_pos: s.cursor_pos.moved(motion_of(key.code)->0, n, lines),
                    ..s
                }.scrolled_to_cursor(),
                OutcomeView::Handled,
            )
        } else {
            match key.code {
                KeyCode::Esc => (
                    DiffViewState { pending_key: None, ..normal }.scrolled_to_cursor(),
                    OutcomeView::Handled,
                ),
                KeyCode::Char(c) => if c == 'g' || c == 'i' || c == 'a' {
                    (
                        DiffViewState { pending_key: Some(c), ..s }.scrolled_to_cursor(),
                        OutcomeView::Handled,
                    )
                } else if c == 'y' {
                    (
                        normal.scrolled_to_cursor(),
                        OutcomeView::Yank(
                            match s.visual_anchor {
                                Some(anchor) => selection_text(s.mode, anchor, s.cursor_pos, lines),
                                None => Seq::empty(),
                            },
                        ),
                    )
                } else if c == 'v' || c == 'V' {
                    let target = if c == 'v' {
                        DiffViewMode::Visual
                    } else {
                        DiffViewMode::VisualLine
                    };
                    if s.mode == target {
                        (normal.scrolled_to_cursor(), OutcomeView::Handled)
                    } else {
                        (
                            DiffViewState {
                                mode: target,
                                visual_anchor: Some(s.cursor_pos),
                                ..s
                            }.scrolled_to_cursor(),
                            OutcomeView::Handled,
                        )
                    }
                } else if c == '/' {
                    (s.scrolled_to_cursor(), OutcomeView::StartSearch)
                } else if c == 'n' || c == 'N' {
                    (s, OutcomeView::Jump(c == 'n'))
                } else {
                    (s.scrolled_to_cursor(), OutcomeView::Handled)
                },
                _ => (s.scrolled_to_cursor(), OutcomeView::Handled),
            }
        }
    }

    /// The reaction of the visual modes to a key, on a state whose cursor
    /// lies in the buffer.
    pub open spec fn visual_inner(self, key: KeyEvent, lines: Seq<Seq<char>>) -> (
        DiffViewState,
        OutcomeView,
    ) {
        if self.pending_key is Some {
            self.visual_pending(self.pending_key->0, key, lines)
        } else if self.count_step(key) is Some {
            (self.count_step(key)->0, OutcomeView::Handled)
        } else {
            self.visual_plain(key, lines)
        }
    }

    /// The reaction of Visual and Visual-Line mode to a key. The cursor is
    /// first brought inside the buffer.
    pub open spec fn visual_step(self, key: KeyEvent, lines: Seq<Seq<char>>) -> (
        DiffViewState,
        OutcomeView,
    ) {
        self.with_cursor_clamped(lines).visual_inner(key, lines)
    }

    fn visual_pending_key(&mut self, p: char, key: KeyEvent, lines: &Vec<String>) -> (out: Outcome)
        ensures
            (*final(self), out.deep_view()) == old(self).visual_pending(p, key, lines.deep_view()),
            lines.len() > 0 && old(self).cursor_pos.in_bounds(lines.deep_view())
                ==> final(self).cursor_pos.in_bounds(lines.deep_view()),
            final(self).cursor_pos.side == old(self).cursor_pos.side,
            out is Handled,
    {
        reveal(DiffViewState::visual_pending);
        self.pending_key = None;
        if p == 'i' || p == 'a' {
            match apply_text_object(p == 'i', key.code, self.cursor_pos, lines) {
                Some(sel) => {
                    self.visual_anchor = Some(sel.0);
                    self.cursor_pos = sel.1;
                },
                None => {},
            }
        } else if p == 'g' {
            self.goto_line(key, lines);
        }
        self.scroll_to_cursor();
        Outcome::Handled
    }

    fn visual_plain_key(&mut self, key: KeyEvent, lines: &Vec<String>) -> (out: Outcome)
        ensures
            (*final(self), out.deep_view()) == old(self).visual_plain(key, lines.deep_view()),
            lines.len() > 0 && old(self).cursor_pos.in_bounds(lines.deep_view())
                ==> final(self).cursor_pos.in_bounds(lines.deep_view()),
            final(self).cursor_pos.side == old(self).cursor_pos.side,
            !(out is SideChanged),
    {
        reveal(DiffViewState::visual_plain);
        let n = self.take_count();
        if lines.len() == 0 {
            match key.code {
                KeyCode::Esc => {},
                _ => {
                    return Outcome::Handled;
                },
            }
        }
        match motion_for(key.code) {
            Some(m) => {
                self.cursor_pos = apply_motion(self.cursor_pos, m, n, lines);
                self.scroll_to_cursor();
                return Outcome::Handled;
            },
            None => {},
        }
        match key.code {
            KeyCode::Esc => {
                self.mode = DiffViewMode::Normal;
                self.visual_anchor = None;
                self.pending_key = None;
            },
            KeyCode::Char(c) => {
                if c == 'g' || c == 'i' || c == 'a' {
                    self.pending_key = Some(c);
                } else if c == 'y' {
                    let text = match self.visual_anchor {
                        Some(anchor) => yank_selection(self.mode, anchor, self.cursor_pos, lines),
                        None => String::new(),
                    };
                    self.mode = DiffViewMode::Normal;
                    self.visual_anchor = None;
                    self.scroll_to_cursor();
                    return Outcome::Yank(text);
                } else if c == 'v' || c == 'V' {
                    let target = if c == 'v' {
                        DiffViewMode::Visual
                    } else {
                        DiffViewMode::VisualLine
                    };
                    if self.mode == target {
                        self.mode = DiffViewMode::Normal;
                        self.visual_anchor = None;
                    } else {
                        self.mode = target;
                        self.visual_anchor = Some(self.cursor_pos);
                    }
                } else if c == '/' {
                    self.scroll_to_cursor();
                    return Outcome::StartSearch;
                } else if c == 'n' {
                    return Outcome::Jump(true);
                } else if c == 'N' {
                    return Outcome::Jump(false);
                }
            },
            _ => {},
        }
        self.scroll_to_cursor();
        Outcome::Handled
    }

    /// Handles a key in Visual or Visual-Line mode. Afterwards the cursor
    /// lies inside a buffer that has lines.
    pub fn visual_key(&mut self, key: KeyEvent, lines: &Vec<String>) -> (out: Outcome)
        ensures
            (*final(self), out.deep_view()) == old(self).visual_step(key, lines.deep_view()),
            lines.len() > 0 ==> final(self).cursor_pos.in_bounds(lines.deep_view()),
            final(self).cursor_pos.side == old(self).cursor_pos.side,
            !(out is SideChanged),
    {
        if lines.len() > 0 {
            self.cursor_pos = clamp(self.cursor_pos, lines);
        }
        match self.pending_key {
            Some(p) => {
                return self.visual_pending_key(p, key, lines);
            },
            None => {},
        }
        if self.take_digit(key) {
            return Outcome::Handled;
        }
        self.visual_plain_key(key, lines)
    }
}

} // verus!
