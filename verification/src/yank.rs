//! Text extraction: the text between two positions, the text a yank motion
//! covers, the text of a visual selection, and the spans of text objects.

use crate::cursor::{
    apply_motion, clamp, line_len_at, min_int, skip_to_word_end, skip_word_back, width, CursorPos,
    DiffViewMode, Motion,
};
use crate::text::{chars_of, is_space, join_lines, joined, push_range, string_of_range};
use vstd::prelude::*;

verus! {

/// What row `r` contributes to a range that spans several rows: the first
/// row from the start column on, the last row up to and including the end
/// column, the rows between in full; every row but the first after a line feed.
pub open spec fn range_piece(
    lines: Seq<Seq<char>>,
    start_row: int,
    start_col: int,
    end_row: int,
    end_col: int,
    r: int,
) -> Seq<char> {
    let line = lines[r];
    if r == start_row {
        line.skip(min_int(start_col, line.len() as int))
    } else if r == end_row {
        seq!['\n'] + line.take(min_int(end_col + 1, line.len() as int))
    } else {
        seq!['\n'] + line
    }
}

/// The contributions of the rows from `start_row` up to, not including, `upto`.
pub open spec fn range_pieces(
    lines: Seq<Seq<char>>,
    start_row: int,
    start_col: int,
    end_row: int,
    end_col: int,
    upto: int,
) -> Seq<char>
    decreases upto - start_row,
{
    if upto <= start_row {
        Seq::empty()
    } else {
        range_pieces(lines, start_row, start_col, end_row, end_col, upto - 1) + range_piece(
            lines,
            start_row,
            start_col,
            end_row,
            end_col,
            upto - 1,
        )
    }
}

/// The text from the start position to the end position, both included.
/// Columns past the end of a line are cut to the line; rows past the end of
/// the buffer give nothing; a start behind the end gives the empty text.
pub open spec fn range_text(
    lines: Seq<Seq<char>>,
    start_row: int,
    start_col: int,
    end_row: int,
    end_col: int,
) -> Seq<char> {
    if start_row == end_row {
        if 0 <= start_row < lines.len() {
            let line = lines[start_row];
            let s = min_int(start_col, line.len() as int);
            let e = min_int(end_col + 1, line.len() as int);
            if s <= e {
                line.subrange(s, e)
            } else {
                Seq::empty()
            }
        } else {
            Seq::empty()
        }
    } else {
        range_pieces(
            lines,
            start_row,
            start_col,
            end_row,
            end_col,
            min_int(end_row + 1, lines.len() as int),
        )
    }
}

fn capped(col: usize, len: usize) -> (r: usize)
    ensures
        r == min_int(col as int, len as int),
{
    if col < len {
        col
    } else {
        len
    }
}

fn capped_after(col: usize, len: usize) -> (r: usize)
    ensures
        r == min_int(col + 1, len as int),
{
    if col < len {
        col + 1
    } else {
        len
    }
}

/// Extracts the text between two positions, both included.
pub fn extract_range(lines: &Vec<String>, start: CursorPos, end: CursorPos) -> (text: String)
    ensures
        text@ == range_text(
            lines.deep_view(),
            start.row as int,
            start.col as int,
            end.row as int,
            end.col as int,
        ),
{
    let ghost view = lines.deep_view();
    if start.row == end.row {
        if start.row < lines.len() {
            let chars = chars_of(lines[start.row].as_str());
            assert(view[start.row as int] == chars@);
            let s = capped(start.col, chars.len());
            let e = capped_after(end.col, chars.len());
            if s <= e {
                return string_of_range(&chars, s, e);
            }
        }
        return String::new();
    }
    let upto = if end.row < lines.len() {
        end.row + 1
    } else {
        lines.len()
    };
    let mut result = String::new();
    if upto <= start.row {
        return result;
    }
    let mut r: usize = start.row;
    while r < upto
        invariant
            start.row <= r <= upto <= lines.len(),
            start.row != end.row,
            view == lines.deep_view(),
            result@ == range_pieces(
                view,
                start.row as int,
                start.col as int,
                end.row as int,
                end.col as int,
                r as int,
            ),
        decreases upto - r,
    {
        let ghost before = result@;
        let chars = chars_of(lines[r].as_str());
        assert(view[r as int] == chars@);
        if r == start.row {
            let s = capped(start.col, chars.len());
            push_range(&mut result, &chars, s, chars.len());
            assert(chars@.subrange(s as int, chars.len() as int) =~= chars@.skip(s as int));
        } else if r == end.row {
            result.push('\n');
            let e = capped_after(end.col, chars.len());
            push_range(&mut result, &chars, 0, e);
            assert(chars@.subrange(0, e as int) =~= chars@.take(e as int));
            assert(result@ =~= before + (seq!['\n'] + chars@.take(e as int)));
        } else {
            result.push('\n');
            push_range(&mut result, &chars, 0, chars.len());
            assert(chars@.subrange(0, chars.len() as int) =~= chars@);
            assert(result@ =~= before + (seq!['\n'] + chars@));
        }
        r += 1;
    }
    result
}

/// Whether `a` comes at or before `b`, by row and then by column.
pub open spec fn comes_first(a: CursorPos, b: CursorPos) -> bool {
    a.row < b.row || (a.row == b.row && a.col <= b.col)
}

/// The two ends of a selection in reading order.
pub open spec fn selection_bounds(anchor: CursorPos, cursor: CursorPos) -> (CursorPos, CursorPos) {
    if comes_first(anchor, cursor) {
        (anchor, cursor)
    } else {
        (cursor, anchor)
    }
}

/// Puts the anchor and the cursor of a selection in reading order.
pub fn ordered_selection(anchor: CursorPos, cursor: CursorPos) -> (r: (CursorPos, CursorPos))
    ensures
        r == selection_bounds(anchor, cursor),
        comes_first(r.0, r.1),
{
    if anchor.row < cursor.row || (anchor.row == cursor.row && anchor.col <= cursor.col) {
        (anchor, cursor)
    } else {
        (cursor, anchor)
    }
}

/// The text of a visual selection. A line-wise selection gives the whole
/// lines from the upper to the lower row, joined by line feeds. A
/// character-wise selection gives the text between its two ends. Outside the
/// visual modes there is no selection and the text is empty.
pub open spec fn selection_text(
    mode: DiffViewMode,
    anchor: CursorPos,
    cursor: CursorPos,
    lines: Seq<Seq<char>>,
) -> Seq<char> {
    match mode {
        DiffViewMode::VisualLine => {
            let lo = min_int(anchor.row as int, cursor.row as int);
            let hi = if anchor.row >= cursor.row {
                anchor.row as int
            } else {
                cursor.row as int
            };
            let to = min_int(hi + 1, lines.len() as int);
            if lo < to {
                joined(lines.subrange(lo, to))
            } else {
                Seq::empty()
            }
        },
        DiffViewMode::Visual => {
            let (s, e) = selection_bounds(anchor, cursor);
            range_text(lines, s.row as int, s.col as int, e.row as int, e.col as int)
        },
        _ => Seq::empty(),
    }
}

/// Extracts the text of the visual selection between `anchor` and `cursor`.
pub fn yank_selection(
    mode: DiffViewMode,
    anchor: CursorPos,
    cursor: CursorPos,
    lines: &Vec<String>,
) -> (text: String)
    ensures
        text@ == selection_text(mode, anchor, cursor, lines.deep_view()),
{
    match mode {
        DiffViewMode::VisualLine => {
            let lo = if anchor.row <= cursor.row {
                anchor.row
            } else {
                cursor.row
            };
            let hi = if anchor.row >= cursor.row {
                anchor.row
            } else {
                cursor.row
            };
            let to = if hi < lines.len() {
                hi + 1
            } else {
                lines.len()
            };
            if lo < to {
                join_lines(lines, lo, to)
            } else {
                String::new()
            }
        },
        DiffViewMode::Visual => {
            let (s, e) = ordered_selection(anchor, cursor);
            extract_range(lines, s, e)
        },
        _ => String::new(),
    }
}

/// Selection normalisation: the text of a selection does not depend on which
/// of its two ends is the anchor and which the live cursor.
pub proof fn lemma_selection_text_symmetric(
    mode: DiffViewMode,
    a: CursorPos,
    c: CursorPos,
    lines: Seq<Seq<char>>,
)
    ensures
        selection_text(mode, a, c, lines) == selection_text(mode, c, a, lines),
{
}

/// What a yank in Normal mode covers, counted from the cursor.
#[derive(Debug, Clone, Copy, PartialEq, Eq, Structural)]
pub enum YankMotion {
    /// Whole lines, starting with the cursor's.
    Lines,
    /// Up to the start of the next word.
    Word,
    /// Up to and including the end of the word.
    WordEnd,
    /// Back to the start of the previous word.
    WordBack,
    /// From the cursor to the end of the line.
    ToLineEnd,
    /// From the start of the line up to the cursor.
    ToLineStart,
}

/// The text that `motion`, with count `n`, yanks at `pos`. The cursor is
/// first brought inside the buffer; an empty buffer gives the empty text.
pub open spec fn yank_text(
    pos: CursorPos,
    motion: YankMotion,
    n: usize,
    lines: Seq<Seq<char>>,
) -> Seq<char> {
    let p = pos.clamped(lines);
    let line = lines[p.row as int];
    let at = min_int(p.col as int, line.len() as int);
    if lines.len() == 0 {
        Seq::empty()
    } else {
        match motion {
            YankMotion::Lines => joined(
                lines.subrange(p.row as int, min_int(p.row + n, lines.len() as int)),
            ),
            YankMotion::Word => {
                let end = p.moved(Motion::WordForward, n, lines);
                if end == p {
                    line.skip(at)
                } else if end.row > p.row {
                    range_text(
                        lines,
                        p.row as int,
                        p.col as int,
                        end.row - 1,
                        width(lines, end.row - 1) - 1,
                    )
                } else {
                    range_text(
                        lines,
                        p.row as int,
                        p.col as int,
                        end.row as int,
                        if end.col > 0 {
                            end.col - 1
                        } else {
                            0
                        },
                    )
                }
            },
            YankMotion::WordEnd => {
                let end = p.moved(Motion::WordEnd, n, lines);
                range_text(lines, p.row as int, p.col as int, end.row as int, end.col as int)
            },
            YankMotion::WordBack => {
                let start = p.moved(Motion::WordBackward, n, lines);
                range_text(lines, start.row as int, start.col as int, p.row as int, p.col as int)
            },
            YankMotion::ToLineEnd => line.skip(at),
            YankMotion::ToLineStart => line.take(at),
        }
    }
}

/// Computes the text that a yank motion covers. The cursor does not move.
pub fn yank_motion_text(pos: CursorPos, motion: YankMotion, n: usize, lines: &Vec<String>) -> (text:
    String)
    ensures
        text@ == yank_text(pos, motion, n, lines.deep_view()),
{
    let ghost view = lines.deep_view();
    if lines.len() == 0 {
        return String::new();
    }
    let p = clamp(pos, lines);
    let chars = chars_of(lines[p.row].as_str());
    assert(view[p.row as int] == chars@);
    let at = capped(p.col, chars.len());
    match motion {
        YankMotion::Lines => {
            let want = p.row.saturating_add(n);
            let end = if want < lines.len() {
                want
            } else {
                lines.len()
            };
            join_lines(lines, p.row, end)
        },
        YankMotion::Word => {
            let end = apply_motion(p, Motion::WordForward, n, lines);
            if end.row == p.row && end.col == p.col {
                let text = string_of_range(&chars, at, chars.len());
                assert(chars@.subrange(at as int, chars.len() as int) =~= chars@.skip(at as int));
                text
            } else if end.row > p.row {
                let row = end.row - 1;
                let adjusted = CursorPos { row, col: line_len_at(lines, row) - 1, side: p.side };
                extract_range(lines, p, adjusted)
            } else {
                let adjusted = CursorPos {
                    row: end.row,
                    col: end.col.saturating_sub(1),
                    side: p.side,
                };
                extract_range(lines, p, adjusted)
            }
        },
        YankMotion::WordEnd => {
            let end = apply_motion(p, Motion::WordEnd, n, lines);
            extract_range(lines, p, end)
        },
        YankMotion::WordBack => {
            let start = apply_motion(p, Motion::WordBackward, n, lines);
            extract_range(lines, start, p)
        },
        YankMotion::ToLineEnd => {
            let text = string_of_range(&chars, at, chars.len());
            assert(chars@.subrange(at as int, chars.len() as int) =~= chars@.skip(at as int));
            text
        },
        YankMotion::ToLineStart => {
            let text = string_of_range(&chars, 0, at);
            assert(chars@.subrange(0, at as int) =~= chars@.take(at as int));
            text
        },
    }
}

/// Moving right from `col` while the next character is white space.
pub open spec fn skip_space_ahead(line: Seq<char>, col: int) -> int
    decreases line.len() - col,
{
    if 0 <= col && col + 1 < line.len() && is_space(line[col + 1]) {
        skip_space_ahead(line, col + 1)
    } else {
        col
    }
}

/// The first and the last column of the word under `col`: the run of
/// characters without white space around it. The outer form also takes the
/// white space that follows.
pub open spec fn word_span(inner: bool, line: Seq<char>, col: int) -> (int, int) {
    let c = min_int(col, line.len() - 1);
    let end = skip_to_word_end(line, c);
    (
        skip_word_back(line, c),
        if inner {
            end
        } else {
            skip_space_ahead(line, end)
        },
    )
}

/// The last index at or before `col` that holds `ch`, or -1.
pub open spec fn last_at_or_before(line: Seq<char>, ch: char, col: int) -> int
    decreases col + 1,
{
    if col < 0 {
        -1
    } else if col < line.len() && line[col] == ch {
        col
    } else {
        last_at_or_before(line, ch, col - 1)
    }
}

/// The first index at or after `col` that holds `ch`, or the line's length.
pub open spec fn first_at_or_after(line: Seq<char>, ch: char, col: int) -> int
    decreases line.len() - col,
{
    if col < 0 || col >= line.len() {
        line.len() as int
    } else if line[col] == ch {
        col
    } else {
        first_at_or_after(line, ch, col + 1)
    }
}

/// The span between the nearest `open` at or before `col` and the nearest
/// `close` after it: without the two delimiters for the inner form, with
/// them for the outer form. There is none where either delimiter is missing.
pub open spec fn delim_span(inner: bool, open: char, close: char, line: Seq<char>, col: int) -> Option<
    (int, int),
> {
    let c = min_int(col, line.len() - 1);
    let op = last_at_or_before(line, open, c);
    let cp = first_at_or_after(line, close, c + 1);
    if line.len() > 0 && op >= 0 && cp < line.len() {
        Some(
            if inner {
                (op + 1, cp - 1)
            } else {
                (op, cp)
            },
        )
    } else {
        None
    }
}

/// A text object on the cursor's row as a selection: the anchor at its
/// first end, the cursor at its second.
pub open spec fn object_selection(pos: CursorPos, span: (int, int)) -> (CursorPos, CursorPos) {
    (
        CursorPos { row: pos.row, col: span.0 as usize, side: pos.side },
        CursorPos { row: pos.row, col: span.1 as usize, side: pos.side },
    )
}

/// The word object at the cursor, if its row exists and is not empty.
pub open spec fn word_object(inner: bool, pos: CursorPos, lines: Seq<Seq<char>>) -> Option<
    (CursorPos, CursorPos),
> {
    if pos.row < lines.len() && lines[pos.row as int].len() > 0 {
        Some(object_selection(pos, word_span(inner, lines[pos.row as int], pos.col as int)))
    } else {
        None
    }
}

/// The delimiter object at the cursor, if its row exists and holds both
/// delimiters around the cursor.
pub open spec fn delim_object(
    inner: bool,
    open: char,
    close: char,
    pos: CursorPos,
    lines: Seq<Seq<char>>,
) -> Option<(CursorPos, CursorPos)> {
    if pos.row < lines.len() {
        match delim_span(inner, open, close, lines[pos.row as int], pos.col as int) {
            Some(span) => Some(object_selection(pos, span)),
            None => None,
        }
    } else {
        None
    }
}

/// Selects the word under the cursor. Gives the new anchor and cursor.
pub fn select_text_object_word(inner: bool, pos: CursorPos, lines: &Vec<String>) -> (r: Option<
    (CursorPos, CursorPos),
>)
    ensures
        r == word_object(inner, pos, lines.deep_view()),
        r matches Some(sel) ==> sel.0.in_bounds(lines.deep_view()) && sel.1.in_bounds(
            lines.deep_view(),
        ) && sel.0.col <= sel.1.col,
{
    if pos.row >= lines.len() {
        return None;
    }
    let chars = chars_of(lines[pos.row].as_str());
    assert(lines.deep_view()[pos.row as int] == chars@);
    if chars.len() == 0 {
        return None;
    }
    let col = capped(pos.col, chars.len() - 1);
    let mut start = col;
    while start > 0 && !chars[start - 1].is_whitespace()
        invariant
            start <= col < chars.len(),
            skip_word_back(chars@, start as int) == skip_word_back(chars@, col as int),
        decreases start,
    {
        start -= 1;
    }
    let mut end = col;
    while end + 1 < chars.len() && !chars[end + 1].is_whitespace()
        invariant
            col <= end < chars.len(),
            skip_to_word_end(chars@, end as int) == skip_to_word_end(chars@, col as int),
        decreases chars.len() - end,
    {
        end += 1;
    }
    if !inner {
        let ghost word_end = end;
        while end + 1 < chars.len() && chars[end + 1].is_whitespace()
            invariant
                word_end <= end < chars.len(),
                skip_space_ahead(chars@, end as int) == skip_space_ahead(chars@, word_end as int),
            decreases chars.len() - end,
        {
            end += 1;
        }
    }
    Some(
        (
            CursorPos { row: pos.row, col: start, side: pos.side },
            CursorPos { row: pos.row, col: end, side: pos.side },
        ),
    )
}

/// Selects the text between a pair of delimiters around the cursor. Gives
/// the new anchor and cursor, or nothing where a delimiter is missing.
pub fn select_text_object_delim(
    inner: bool,
    open: char,
    close: char,
    pos: CursorPos,
    lines: &Vec<String>,
) -> (r: Option<(CursorPos, CursorPos)>)
    ensures
        r == delim_object(inner, open, close, pos, lines.deep_view()),
        r matches Some(sel) ==> sel.0.in_bounds(lines.deep_view()) && sel.1.in_bounds(
            lines.deep_view(),
        ),
{
    if pos.row >= lines.len() {
        return None;
    }
    let chars = chars_of(lines[pos.row].as_str());
    assert(lines.deep_view()[pos.row as int] == chars@);
    if chars.len() == 0 {
        return None;
    }
    let col = capped(pos.col, chars.len() - 1);
    let mut open_pos: Option<usize> = None;
    let mut i: usize = col + 1;
    while i > 0 && open_pos.is_none()
        invariant
            i <= col + 1 <= chars.len(),
            open_pos is None ==> last_at_or_before(chars@, open, i - 1) == last_at_or_before(
                chars@,
                open,
                col as int,
            ),
            open_pos matches Some(op) ==> op == last_at_or_before(chars@, open, col as int) && op
                <= col,
        decreases i + (if open_pos is None { 1int } else { 0int }),
    {
        if chars[i - 1] == open {
            open_pos = Some(i - 1);
        } else {
            i -= 1;
        }
    }
    let mut close_pos: Option<usize> = None;
    let mut j: usize = col + 1;
    while j < chars.len() && close_pos.is_none()
        invariant
            col + 1 <= j <= chars.len(),
            close_pos is None ==> first_at_or_after(chars@, close, j as int) == first_at_or_after(
                chars@,
                close,
                col + 1,
            ),
            close_pos matches Some(cp) ==> cp == first_at_or_after(chars@, close, col + 1) && col
                < cp < chars.len(),
        decreases chars.len() - j + (if close_pos is None { 1int } else { 0int }),
    {
        if chars[j] == close {
            close_pos = Some(j);
        } else {
            j += 1;
        }
    }
    match (open_pos, close_pos) {
        (Some(op), Some(cp)) => {
            let (first, last) = if inner {
                (op + 1, cp - 1)
            } else {
                (op, cp)
            };
            Some(
                (
                    CursorPos { row: pos.row, col: first, side: pos.side },
                    CursorPos { row: pos.row, col: last, side: pos.side },
                ),
            )
        },
        _ => None,
    }
}

} // verus!
