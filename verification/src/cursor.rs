//! Cursor positions over the flattened content of one side, and the motions
//! that move them. Every motion leaves the cursor inside the buffer.

use crate::text::{chars_of, is_space};
use vstd::prelude::*;

verus! {

/// The side of the diff: the old content on the left, the new on the right.
#[derive(Debug, Clone, Copy, PartialEq, Eq, Structural)]
pub enum DiffSide {
    Left,
    Right,
}

/// A position in the flattened content: a row, a character offset in that
/// row, and the side the cursor is on.
#[derive(Debug, Clone, Copy, PartialEq, Eq, Structural)]
pub struct CursorPos {
    pub row: usize,
    pub col: usize,
    pub side: DiffSide,
}

/// The modes of the diff view.
#[derive(Debug, Clone, Copy, PartialEq, Eq, Structural)]
pub enum DiffViewMode {
    Scroll,
    Normal,
    Visual,
    VisualLine,
}

/// A cursor movement.
#[derive(Debug, Clone, Copy, PartialEq, Eq, Structural)]
pub enum Motion {
    Left,
    Right,
    Down,
    Up,
    WordForward,
    WordBackward,
    WordEnd,
    LineStart,
    LineEnd,
    /// To the last line, or to line `count` when the count is above one.
    GotoEnd,
    /// To the first line.
    GotoStart,
    /// To line `count`.
    GotoLine,
}

/// The number of columns a cursor can take in `row`: the line's length, and
/// one for an empty or missing line.
pub open spec fn width(lines: Seq<Seq<char>>, row: int) -> int {
    if 0 <= row < lines.len() && lines[row].len() > 0 {
        lines[row].len() as int
    } else {
        1
    }
}

/// The smaller of two numbers.
pub open spec fn min_int(a: int, b: int) -> int {
    if a <= b {
        a
    } else {
        b
    }
}

/// The first index at or after `from` that holds white space (or the end).
pub open spec fn skip_word(line: Seq<char>, from: int) -> int
    decreases line.len() - from,
{
    if 0 <= from < line.len() && !is_space(line[from]) {
        skip_word(line, from + 1)
    } else {
        from
    }
}

/// The first index at or after `from` that holds no white space (or the end).
pub open spec fn skip_space(line: Seq<char>, from: int) -> int
    decreases line.len() - from,
{
    if 0 <= from < line.len() && is_space(line[from]) {
        skip_space(line, from + 1)
    } else {
        from
    }
}

/// Moving left from `col` while the character under it is white space.
pub open spec fn skip_space_back(line: Seq<char>, col: int) -> int
    decreases col,
{
    if 0 < col < line.len() && is_space(line[col]) {
        skip_space_back(line, col - 1)
    } else {
        col
    }
}

/// Moving left from `col` while the character before it is no white space.
pub open spec fn skip_word_back(line: Seq<char>, col: int) -> int
    decreases col,
{
    if 0 < col <= line.len() && !is_space(line[col - 1]) {
        skip_word_back(line, col - 1)
    } else {
        col
    }
}

/// Moving right from `col` while the next character is no white space.
pub open spec fn skip_to_word_end(line: Seq<char>, col: int) -> int
    decreases line.len() - col,
{
    if 0 <= col && col + 1 < line.len() && !is_space(line[col + 1]) {
        skip_to_word_end(line, col + 1)
    } else {
        col
    }
}

/// Skipping forward never goes back and never leaves the line.
pub proof fn lemma_skip_bounds(line: Seq<char>, from: int)
    requires
        0 <= from,
    ensures
        from <= skip_word(line, from),
        from <= skip_space(line, from),
        from < line.len() ==> skip_word(line, from) <= line.len(),
        from < line.len() ==> skip_space(line, from) <= line.len(),
        from >= line.len() ==> skip_word(line, from) == from,
        from >= line.len() ==> skip_space(line, from) == from,
        from <= skip_to_word_end(line, from),
        from < line.len() ==> skip_to_word_end(line, from) < line.len(),
    decreases line.len() - from,
{
    if from < line.len() {
        lemma_skip_bounds(line, from + 1);
    }
}

/// Skipping backward never goes forward and never goes before the line.
pub proof fn lemma_skip_back_bounds(line: Seq<char>, col: int)
    requires
        0 <= col,
    ensures
        0 <= skip_space_back(line, col) <= col,
        0 <= skip_word_back(line, col) <= col,
    decreases col,
{
    if col > 0 {
        lemma_skip_back_bounds(line, col - 1);
    }
}

impl CursorPos {
    /// The cursor lies on a row of the buffer and on a column of that row.
    pub open spec fn in_bounds(self, lines: Seq<Seq<char>>) -> bool {
        self.row < lines.len() && self.col < width(lines, self.row as int)
    }

    /// The nearest position inside the buffer: the row capped at the last
    /// row, the column capped at the last column of that row.
    pub open spec fn clamped(self, lines: Seq<Seq<char>>) -> CursorPos {
        let row = if self.row < lines.len() {
            self.row
        } else if lines.len() > 0 {
            (lines.len() - 1) as usize
        } else {
            0
        };
        let w = width(lines, row as int);
        CursorPos {
            row,
            col: if self.col < w {
                self.col
            } else {
                (w - 1) as usize
            },
            side: self.side,
        }
    }

    /// One word forward: past the current word and the white space after
    /// it; at the end of the line, on to the first word of the next line.
    /// The last line is never left.
    pub open spec fn word_forward(self, lines: Seq<Seq<char>>) -> CursorPos {
        let p = self.clamped(lines);
        let line = lines[p.row as int];
        let c1 = skip_space(line, skip_word(line, p.col as int));
        if c1 >= line.len() && p.row + 1 < lines.len() {
            let c2 = skip_space(lines[p.row + 1], 0);
            CursorPos {
                row: (p.row + 1) as usize,
                col: min_int(c2, width(lines, p.row + 1) - 1) as usize,
                side: p.side,
            }
        } else {
            CursorPos {
                row: p.row,
                col: min_int(c1, width(lines, p.row as int) - 1) as usize,
                side: p.side,
            }
        }
    }

    /// One word backward: to the start of the word before the cursor; from
    /// the first column, to the end of the previous line.
    pub open spec fn word_backward(self, lines: Seq<Seq<char>>) -> CursorPos {
        let p = self.clamped(lines);
        let line = lines[p.row as int];
        if p.col == 0 {
            if p.row > 0 {
                CursorPos {
                    row: (p.row - 1) as usize,
                    col: (width(lines, p.row - 1) - 1) as usize,
                    side: p.side,
                }
            } else {
                p
            }
        } else {
            CursorPos {
                row: p.row,
                col: skip_word_back(line, skip_space_back(line, p.col - 1)) as usize,
                side: p.side,
            }
        }
    }

    /// To the end of the word: one step right (onto the next line at the end
    /// of this one), past white space, then to the last character of the word.
    pub open spec fn word_end(self, lines: Seq<Seq<char>>) -> CursorPos {
        let p = self.clamped(lines);
        let line = lines[p.row as int];
        let wrap = p.col + 1 >= line.len() && p.row + 1 < lines.len();
        let row = if wrap {
            p.row + 1
        } else {
            p.row as int
        };
        let c0 = if wrap {
            0
        } else {
            p.col + 1
        };
        let cur = lines[row];
        let c = skip_to_word_end(cur, skip_space(cur, c0));
        CursorPos { row: row as usize, col: min_int(c, width(lines, row) - 1) as usize, side: p.side }
    }

    /// The position after `n` steps to the start of the next word.
    pub open spec fn word_forward_n(self, lines: Seq<Seq<char>>, n: nat) -> CursorPos
        decreases n,
    {
        if n == 0 {
            self
        } else {
            self.word_forward_n(lines, (n - 1) as nat).word_forward(lines)
        }
    }

    /// The position after `n` steps to the start of the word before.
    pub open spec fn word_backward_n(self, lines: Seq<Seq<char>>, n: nat) -> CursorPos
        decreases n,
    {
        if n == 0 {
            self
        } else {
            self.word_backward_n(lines, (n - 1) as nat).word_backward(lines)
        }
    }

    /// The position after `n` steps to the end of the next word.
    pub open spec fn word_end_n(self, lines: Seq<Seq<char>>, n: nat) -> CursorPos
        decreases n,
    {
        if n == 0 {
            self
        } else {
            self.word_end_n(lines, (n - 1) as nat).word_end(lines)
        }
    }

    /// Where `motion`, repeated `n` times, takes the cursor. The start is
    /// first brought inside the buffer. On an empty buffer only the
    /// go-to-line motions act, and they give the origin.
    pub open spec fn moved(self, motion: Motion, n: usize, lines: Seq<Seq<char>>) -> CursorPos {
        let p = self.clamped(lines);
        let last = lines.len() - 1;
        if lines.len() == 0 {
            match motion {
                Motion::GotoStart | Motion::GotoLine => CursorPos { row: 0, col: 0, side: self.side },
                _ => self,
            }
        } else {
            match motion {
                Motion::Left => CursorPos {
                    col: if p.col >= n {
                        (p.col - n) as usize
                    } else {
                        0
                    },
                    ..p
                },
                Motion::Right => CursorPos {
                    col: min_int(p.col + n, width(lines, p.row as int) - 1) as usize,
                    ..p
                },
                Motion::Down => CursorPos { row: min_int(p.row + n, last) as usize, ..p }.clamped(
                    lines,
                ),
                Motion::Up => CursorPos {
                    row: if p.row >= n {
                        (p.row - n) as usize
                    } else {
                        0
                    },
                    ..p
                }.clamped(lines),
                Motion::WordForward => p.word_forward_n(lines, n as nat),
                Motion::WordBackward => p.word_backward_n(lines, n as nat),
                Motion::WordEnd => p.word_end_n(lines, n as nat),
                Motion::LineStart => CursorPos { col: 0, ..p },
                Motion::LineEnd => CursorPos { col: (width(lines, p.row as int) - 1) as usize, ..p },
                Motion::GotoEnd => CursorPos {
                    row: if n > 1 {
                        min_int(n - 1, last) as usize
                    } else {
                        last as usize
                    },
                    col: 0,
                    side: p.side,
                },
                Motion::GotoStart => CursorPos { row: 0, col: 0, side: p.side },
                Motion::GotoLine => CursorPos {
                    row: if n >= 1 {
                        min_int(n - 1, last) as usize
                    } else {
                        0
                    },
                    col: 0,
                    side: p.side,
                },
            }
        }
    }
}

/// Clamping brings every position into the buffer and leaves a position inside
/// it where it is.
pub proof fn lemma_clamped_in_bounds(pos: CursorPos, lines: Seq<Seq<char>>)
    requires
        lines.len() > 0,
        lines.len() <= usize::MAX,
    ensures
        pos.clamped(lines).in_bounds(lines),
        pos.clamped(lines).side == pos.side,
        pos.in_bounds(lines) ==> pos.clamped(lines) == pos,
{
}

/// One word motion from any position ends inside the buffer.
pub proof fn lemma_word_steps_in_bounds(pos: CursorPos, lines: Seq<Seq<char>>)
    requires
        lines.len() > 0,
        lines.len() <= usize::MAX,
        forall|r: int| 0 <= r < lines.len() ==> (#[trigger] lines[r]).len() <= usize::MAX,
    ensures
        pos.word_forward(lines).in_bounds(lines),
        pos.word_backward(lines).in_bounds(lines),
        pos.word_end(lines).in_bounds(lines),
        pos.word_forward(lines).side == pos.side,
        pos.word_backward(lines).side == pos.side,
        pos.word_end(lines).side == pos.side,
{
    let p = pos.clamped(lines);
    lemma_clamped_in_bounds(pos, lines);
    let line = lines[p.row as int];
    lemma_skip_bounds(line, p.col as int);
    lemma_skip_bounds(line, skip_word(line, p.col as int));
    if p.row + 1 < lines.len() {
        lemma_skip_bounds(lines[p.row + 1], 0);
        let next = lines[p.row + 1];
        lemma_skip_bounds(next, skip_space(next, 0));
    }
    if p.col > 0 {
        lemma_skip_back_bounds(line, p.col - 1);
        lemma_skip_back_bounds(line, skip_space_back(line, p.col - 1));
    }
    lemma_skip_bounds(line, p.col + 1);
    lemma_skip_bounds(line, skip_space(line, p.col + 1));
}

/// Any number of word motions from a position inside the buffer ends inside the
/// buffer.
pub proof fn lemma_word_n_in_bounds(pos: CursorPos, lines: Seq<Seq<char>>, n: nat)
    requires
        lines.len() > 0,
        lines.len() <= usize::MAX,
        forall|r: int| 0 <= r < lines.len() ==> (#[trigger] lines[r]).len() <= usize::MAX,
        pos.in_bounds(lines),
    ensures
        pos.word_forward_n(lines, n).in_bounds(lines),
        pos.word_backward_n(lines, n).in_bounds(lines),
        pos.word_end_n(lines, n).in_bounds(lines),
        pos.word_forward_n(lines, n).side == pos.side,
        pos.word_backward_n(lines, n).side == pos.side,
        pos.word_end_n(lines, n).side == pos.side,
    decreases n,
{
    if n > 0 {
        lemma_word_n_in_bounds(pos, lines, (n - 1) as nat);
        lemma_word_steps_in_bounds(pos.word_forward_n(lines, (n - 1) as nat), lines);
        lemma_word_steps_in_bounds(pos.word_backward_n(lines, (n - 1) as nat), lines);
        lemma_word_steps_in_bounds(pos.word_end_n(lines, (n - 1) as nat), lines);
    }
}

/// No motion can take the cursor out of the buffer: whatever the start, the
/// motion and the count, the result lies on a row of the buffer and on a
/// column of that row, and stays on its side.
pub proof fn lemma_moved_in_bounds(pos: CursorPos, motion: Motion, n: usize, lines: Seq<Seq<char>>)
    requires
        lines.len() > 0,
        lines.len() <= usize::MAX,
        forall|r: int| 0 <= r < lines.len() ==> (#[trigger] lines[r]).len() <= usize::MAX,
    ensures
        pos.moved(motion, n, lines).in_bounds(lines),
        pos.moved(motion, n, lines).side == pos.side,
{
    lemma_clamped_in_bounds(pos, lines);
    let p = pos.clamped(lines);
    lemma_word_n_in_bounds(p, lines, n as nat);
    let last = lines.len() - 1;
    lemma_clamped_in_bounds(CursorPos { row: min_int(p.row + n, last) as usize, ..p }, lines);
    lemma_clamped_in_bounds(
        CursorPos {
            row: if p.row >= n {
                (p.row - n) as usize
            } else {
                0
            },
            ..p
        },
        lines,
    );
}

/// The cursor after a sequence of motions, each with its count.
pub open spec fn moved_through(
    pos: CursorPos,
    steps: Seq<(Motion, usize)>,
    lines: Seq<Seq<char>>,
) -> CursorPos
    decreases steps.len(),
{
    if steps.len() == 0 {
        pos
    } else {
        moved_through(pos, steps.drop_last(), lines).moved(steps.last().0, steps.last().1, lines)
    }
}

/// Cursor clamping: from a cursor inside the buffer, after every step of any
/// sequence of motions the cursor is still inside the buffer.
pub proof fn lemma_motions_stay_in_bounds(
    pos: CursorPos,
    steps: Seq<(Motion, usize)>,
    lines: Seq<Seq<char>>,
)
    requires
        lines.len() > 0,
        lines.len() <= usize::MAX,
        forall|r: int| 0 <= r < lines.len() ==> (#[trigger] lines[r]).len() <= usize::MAX,
        pos.in_bounds(lines),
    ensures
        forall|k: int|
            0 <= k <= steps.len() ==> (#[trigger] moved_through(pos, steps.take(k), lines)).in_bounds(
                lines,
            ),
{
    assert forall|k: int| 0 <= k <= steps.len() implies (#[trigger] moved_through(
        pos,
        steps.take(k),
        lines,
    )).in_bounds(lines) by {
        let prefix = steps.take(k);
        if k > 0 {
            lemma_moved_in_bounds(
                moved_through(pos, prefix.drop_last(), lines),
                prefix.last().0,
                prefix.last().1,
                lines,
            );
        }
    }
}

/// Once a word motion leaves the cursor where it is, repeating it changes
/// nothing more.
pub proof fn lemma_word_forward_settled(pos: CursorPos, lines: Seq<Seq<char>>, i: nat, n: nat)
    requires
        i <= n,
        pos.word_forward_n(lines, i).word_forward(lines) == pos.word_forward_n(lines, i),
    ensures
        pos.word_forward_n(lines, n) == pos.word_forward_n(lines, i),
    decreases n - i,
{
    if i < n {
        lemma_word_forward_settled(pos, lines, i, (n - 1) as nat);
    }
}

/// Once a word motion leaves the cursor where it is, repeating it changes
/// nothing more.
pub proof fn lemma_word_backward_settled(pos: CursorPos, lines: Seq<Seq<char>>, i: nat, n: nat)
    requires
        i <= n,
        pos.word_backward_n(lines, i).word_backward(lines) == pos.word_backward_n(lines, i),
    ensures
        pos.word_backward_n(lines, n) == pos.word_backward_n(lines, i),
    decreases n - i,
{
    if i < n {
        lemma_word_backward_settled(pos, lines, i, (n - 1) as nat);
    }
}

/// Once a word motion leaves the cursor where it is, repeating it changes
/// nothing more.
pub proof fn lemma_word_end_settled(pos: CursorPos, lines: Seq<Seq<char>>, i: nat, n: nat)
    requires
        i <= n,
        pos.word_end_n(lines, i).word_end(lines) == pos.word_end_n(lines, i),
    ensures
        pos.word_end_n(lines, n) == pos.word_end_n(lines, i),
    decreases n - i,
{
    if i < n {
        lemma_word_end_settled(pos, lines, i, (n - 1) as nat);
    }
}

/// The number of columns of `row` (see `width`).
pub fn line_len_at(lines: &Vec<String>, row: usize) -> (n: usize)
    ensures
        n == width(lines.deep_view(), row as int),
        n >= 1,
{
    if row < lines.len() {
        let chars = chars_of(lines[row].as_str());
        assert(lines.deep_view()[row as int] == chars@);
        if chars.len() > 0 {
            chars.len()
        } else {
            1
        }
    } else {
        1
    }
}

/// Brings a position inside the buffer.
pub fn clamp(pos: CursorPos, lines: &Vec<String>) -> (r: CursorPos)
    ensures
        r == pos.clamped(lines.deep_view()),
        lines.len() > 0 ==> r.in_bounds(lines.deep_view()),
        r.side == pos.side,
{
    let row = if pos.row < lines.len() {
        pos.row
    } else if lines.len() > 0 {
        lines.len() - 1
    } else {
        0
    };
    let w = line_len_at(lines, row);
    let col = if pos.col < w {
        pos.col
    } else {
        w - 1
    };
    CursorPos { row, col, side: pos.side }
}

fn skip_word_from(line: &Vec<char>, from: usize) -> (r: usize)
    ensures
        r == skip_word(line@, from as int),
        from <= r,
        from < line.len() ==> r <= line.len(),
{
    let mut col = from;
    proof {
        lemma_skip_bounds(line@, from as int);
    }
    while col < line.len() && !line[col].is_whitespace()
        invariant
            from <= col,
            from < line.len() ==> col <= line.len(),
            skip_word(line@, col as int) == skip_word(line@, from as int),
        decreases line.len() - col,
    {
        col += 1;
    }
    col
}

fn skip_space_from(line: &Vec<char>, from: usize) -> (r: usize)
    ensures
        r == skip_space(line@, from as int),
        from <= r,
        from < line.len() ==> r <= line.len(),
{
    let mut col = from;
    while col < line.len() && line[col].is_whitespace()
        invariant
            from <= col,
            from < line.len() ==> col <= line.len(),
            skip_space(line@, col as int) == skip_space(line@, from as int),
        decreases line.len() - col,
    {
        col += 1;
    }
    col
}

fn min_usize(a: usize, b: usize) -> (r: usize)
    ensures
        r == min_int(a as int, b as int),
{
    if a <= b {
        a
    } else {
        b
    }
}

/// Moves one word forward.
pub fn move_word_forward(pos: CursorPos, lines: &Vec<String>) -> (r: CursorPos)
    ensures
        lines.len() > 0 ==> r == pos.word_forward(lines.deep_view()),
        lines.len() > 0 ==> r.in_bounds(lines.deep_view()),
        lines.len() == 0 ==> r == pos,
        r.side == pos.side,
{
    let total = lines.len();
    if total == 0 {
        return pos;
    }
    let p = clamp(pos, lines);
    let line = chars_of(lines[p.row].as_str());
    assert(lines.deep_view()[p.row as int] == line@);
    let col = skip_space_from(&line, skip_word_from(&line, p.col));
    if col >= line.len() && p.row + 1 < total {
        let row = p.row + 1;
        let next = chars_of(lines[row].as_str());
        assert(lines.deep_view()[row as int] == next@);
        let c2 = skip_space_from(&next, 0);
        CursorPos { row, col: min_usize(c2, line_len_at(lines, row) - 1), side: p.side }
    } else {
        CursorPos { row: p.row, col: min_usize(col, line_len_at(lines, p.row) - 1), side: p.side }
    }
}

/// Moves one word backward.
pub fn move_word_backward(pos: CursorPos, lines: &Vec<String>) -> (r: CursorPos)
    ensures
        lines.len() > 0 ==> r == pos.word_backward(lines.deep_view()),
        lines.len() > 0 ==> r.in_bounds(lines.deep_view()),
        lines.len() == 0 ==> r == pos,
        r.side == pos.side,
{
    if lines.len() == 0 {
        return pos;
    }
    let p = clamp(pos, lines);
    let line = chars_of(lines[p.row].as_str());
    assert(lines.deep_view()[p.row as int] == line@);
    if p.col == 0 {
        if p.row > 0 {
            let row = p.row - 1;
            return CursorPos { row, col: line_len_at(lines, row) - 1, side: p.side };
        }
        return p;
    }
    let mut col = p.col - 1;
    while col > 0 && col < line.len() && line[col].is_whitespace()
        invariant
            col <= p.col - 1,
            skip_space_back(line@, col as int) == skip_space_back(line@, p.col - 1),
        decreases col,
    {
        col -= 1;
    }
    let ghost mid = col;
    while col > 0 && col <= line.len() && !line[col - 1].is_whitespace()
        invariant
            col <= mid,
            skip_word_back(line@, col as int) == skip_word_back(line@, mid as int),
        decreases col,
    {
        col -= 1;
    }
    CursorPos { row: p.row, col, side: p.side }
}

/// Moves to the end of the word.
pub fn move_word_end(pos: CursorPos, lines: &Vec<String>) -> (r: CursorPos)
    ensures
        lines.len() > 0 ==> r == pos.word_end(lines.deep_view()),
        lines.len() > 0 ==> r.in_bounds(lines.deep_view()),
        lines.len() == 0 ==> r == pos,
        r.side == pos.side,
{
    let total = lines.len();
    if total == 0 {
        return pos;
    }
    let p = clamp(pos, lines);
    let line = chars_of(lines[p.row].as_str());
    assert(lines.deep_view()[p.row as int] == line@);
    assert(p.col < width(lines.deep_view(), p.row as int));
    assert(width(lines.deep_view(), p.row as int) <= usize::MAX) by {
        assert(line@.len() == line.len());
    }
    let mut col = p.col + 1;
    let mut row = p.row;
    if col >= line.len() && row + 1 < total {
        row += 1;
        col = 0;
    }
    let cur = chars_of(lines[row].as_str());
    assert(lines.deep_view()[row as int] == cur@);
    col = skip_space_from(&cur, col);
    let ghost start = col;
    proof {
        lemma_skip_bounds(cur@, start as int);
    }
    while cur.len() > 0 && col < cur.len() - 1 && !cur[col + 1].is_whitespace()
        invariant
            start <= col,
            col <= cur.len() || col == start,
            skip_to_word_end(cur@, col as int) == skip_to_word_end(cur@, start as int),
        decreases cur.len() - col,
    {
        col += 1;
    }
    CursorPos { row, col: min_usize(col, line_len_at(lines, row) - 1), side: p.side }
}

/// Applies `motion` `n` times.
pub fn apply_motion(pos: CursorPos, motion: Motion, n: usize, lines: &Vec<String>) -> (r: CursorPos)
    ensures
        r == pos.moved(motion, n, lines.deep_view()),
        lines.len() > 0 ==> r.in_bounds(lines.deep_view()),
        r.side == pos.side,
{
    let ghost view = lines.deep_view();
    let total = lines.len();
    if total == 0 {
        return match motion {
            Motion::GotoStart | Motion::GotoLine => CursorPos { row: 0, col: 0, side: pos.side },
            _ => pos,
        };
    }
    let p = clamp(pos, lines);
    match motion {
        Motion::Left => CursorPos { row: p.row, col: p.col.saturating_sub(n), side: p.side },
        Motion::Right => {
            let w = line_len_at(lines, p.row);
            CursorPos { row: p.row, col: min_usize(p.col.saturating_add(n), w - 1), side: p.side }
        },
        Motion::Down => {
            let row = min_usize(p.row.saturating_add(n), total - 1);
            clamp(CursorPos { row, col: p.col, side: p.side }, lines)
        },
        Motion::Up => clamp(
            CursorPos { row: p.row.saturating_sub(n), col: p.col, side: p.side },
            lines,
        ),
        Motion::WordForward => {
            let mut cur = p;
            let mut i: usize = 0;
            let mut settled = false;
            while i < n && !settled
                invariant
                    i <= n,
                    total == lines.len(),
                    total > 0,
                    view == lines.deep_view(),
                    cur == p.word_forward_n(view, i as nat),
                    cur.in_bounds(view),
                    cur.side == p.side,
                    settled ==> cur.word_forward(view) == cur,
                decreases n - i + if settled {
                    0int
                } else {
                    1int
                },
            {
                let next = move_word_forward(cur, lines);
                if next.row == cur.row && next.col == cur.col {
                    settled = true;
                } else {
                    cur = next;
                    i += 1;
                }
            }
            proof {
                if settled {
                    lemma_word_forward_settled(p, view, i as nat, n as nat);
                }
            }
            cur
        },
        Motion::WordBackward => {
            let mut cur = p;
            let mut i: usize = 0;
            let mut settled = false;
            while i < n && !settled
                invariant
                    i <= n,
                    total == lines.len(),
                    total > 0,
                    view == lines.deep_view(),
                    cur == p.word_backward_n(view, i as nat),
                    cur.in_bounds(view),
                    cur.side == p.side,
                    settled ==> cur.word_backward(view) == cur,
                decreases n - i + if settled {
                    0int
                } else {
                    1int
                },
            {
                let next = move_word_backward(cur, lines);
                if next.row == cur.row && next.col == cur.col {
                    settled = true;
                } else {
                    cur = next;
                    i += 1;
                }
            }
            proof {
                if settled {
                    lemma_word_backward_settled(p, view, i as nat, n as nat);
                }
            }
            cur
        },
        Motion::WordEnd => {
            let mut cur = p;
            let mut i: usize = 0;
            let mut settled = false;
            while i < n && !settled
                invariant
                    i <= n,
                    total == lines.len(),
                    total > 0,
                    view == lines.deep_view(),
                    cur == p.word_end_n(view, i as nat),
                    cur.in_bounds(view),
                    cur.side == p.side,
                    settled ==> cur.word_end(view) == cur,
                decreases n - i + if settled {
                    0int
                } else {
                    1int
                },
            {
                let next = move_word_end(cur, lines);
                if next.row == cur.row && next.col == cur.col {
                    settled = true;
                } else {
                    cur = next;
                    i += 1;
                }
            }
            proof {
                if settled {
                    lemma_word_end_settled(p, view, i as nat, n as nat);
                }
            }
            cur
        },
        Motion::LineStart => CursorPos { row: p.row, col: 0, side: p.side },
        Motion::LineEnd => CursorPos { row: p.row, col: line_len_at(lines, p.row) - 1, side: p.side },
        Motion::GotoEnd => {
            let row = if n > 1 {
                min_usize(n - 1, total - 1)
            } else {
                total - 1
            };
            CursorPos { row, col: 0, side: p.side }
        },
        Motion::GotoStart => CursorPos { row: 0, col: 0, side: p.side },
        Motion::GotoLine => {
            let row = if n >= 1 {
                min_usize(n - 1, total - 1)
            } else {
                0
            };
            CursorPos { row, col: 0, side: p.side }
        },
    }
}

} // verus!
