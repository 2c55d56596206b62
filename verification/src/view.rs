//! What the renderer asks of the engine for one frame: which cells are
//! selected, which lie in a search match, how a line is cut and padded to the
//! pane, and in which colours a row is drawn.

use crate::cursor::{CursorPos, DiffSide, DiffViewMode};
use crate::diff::LineType;
use crate::modal::DiffViewState;
use crate::search::{SearchMatch, SearchState};
use crate::syntax::{extension, extension_of, Rgb};
use crate::text::{chars_of, decimal, push_decimal, push_text, string_of_range};
use crate::yank::{comes_first, ordered_selection, selection_bounds};
use std::collections::HashMap;
use vstd::prelude::*;

verus! {

broadcast use vstd::std_specs::hash::group_hash_axioms;

/// A colour of the terminal's palette, or a colour given by its parts.
#[derive(Debug, Clone, Copy, PartialEq, Eq, Structural)]
pub enum Tint {
    Reset,
    Black,
    Red,
    Green,
    Yellow,
    Blue,
    Magenta,
    Cyan,
    White,
    DarkGray,
    Rgb(u8, u8, u8),
}

/// The selection as the renderer needs it: its two ends in reading order,
/// the mode, and the cursor.
#[derive(Debug, Clone, Copy, PartialEq, Eq, Structural)]
pub struct SelectionInfo {
    pub start: CursorPos,
    pub end: CursorPos,
    pub mode: DiffViewMode,
    pub cursor: CursorPos,
}

/// The selection that a state of the diff view shows: in Normal mode only
/// the cursor; in Visual mode the span between anchor and cursor in reading
/// order; in Visual-Line mode the whole rows between them; none in Scroll
/// mode or without an anchor.
pub open spec fn selection_of(state: DiffViewState) -> Option<SelectionInfo> {
    let cursor = state.cursor_pos;
    match state.mode {
        DiffViewMode::Normal => Some(
            SelectionInfo { start: cursor, end: cursor, mode: DiffViewMode::Normal, cursor },
        ),
        DiffViewMode::Visual => match state.visual_anchor {
            Some(anchor) => Some(
                SelectionInfo {
                    start: selection_bounds(anchor, cursor).0,
                    end: selection_bounds(anchor, cursor).1,
                    mode: DiffViewMode::Visual,
                    cursor,
                },
            ),
            None => None,
        },
        DiffViewMode::VisualLine => match state.visual_anchor {
            Some(anchor) => Some(
                SelectionInfo {
                    start: CursorPos {
                        row: if anchor.row <= cursor.row {
                            anchor.row
                        } else {
                            cursor.row
                        },
                        col: 0,
                        side: cursor.side,
                    },
                    end: CursorPos {
                        row: if anchor.row >= cursor.row {
                            anchor.row
                        } else {
                            cursor.row
                        },
                        col: usize::MAX,
                        side: cursor.side,
                    },
                    mode: DiffViewMode::VisualLine,
                    cursor,
                },
            ),
            None => None,
        },
        DiffViewMode::Scroll => None,
    }
}

/// Works out the selection to draw.
pub fn build_selection_info(state: &DiffViewState) -> (r: Option<SelectionInfo>)
    ensures
        r == selection_of(*state),
        r matches Some(sel) ==> comes_first(sel.start, sel.end),
{
    let cursor = state.cursor_pos;
    match state.mode {
        DiffViewMode::Normal => Some(
            SelectionInfo { start: cursor, end: cursor, mode: DiffViewMode::Normal, cursor },
        ),
        DiffViewMode::Visual => match state.visual_anchor {
            Some(anchor) => {
                let (start, end) = ordered_selection(anchor, cursor);
                Some(SelectionInfo { start, end, mode: DiffViewMode::Visual, cursor })
            },
            None => None,
        },
        DiffViewMode::VisualLine => match state.visual_anchor {
            Some(anchor) => {
                let start_row = if anchor.row <= cursor.row {
                    anchor.row
                } else {
                    cursor.row
                };
                let end_row = if anchor.row >= cursor.row {
                    anchor.row
                } else {
                    cursor.row
                };
                Some(
                    SelectionInfo {
                        start: CursorPos { row: start_row, col: 0, side: cursor.side },
                        end: CursorPos { row: end_row, col: usize::MAX, side: cursor.side },
                        mode: DiffViewMode::VisualLine,
                        cursor,
                    },
                )
            },
            None => None,
        },
        DiffViewMode::Scroll => None,
    }
}

/// Whether the cell at `row`, `col` belongs to the selection: in
/// Visual-Line mode every cell of the rows from the first to the last; in
/// Visual mode every cell from the first end to the last end in reading
/// order; in the other modes none.
pub open spec fn selected(row: usize, col: usize, sel: SelectionInfo) -> bool {
    match sel.mode {
        DiffViewMode::VisualLine => sel.start.row <= row <= sel.end.row,
        DiffViewMode::Visual => {
            &&& sel.start.row < row || (sel.start.row == row && sel.start.col <= col)
            &&& row < sel.end.row || (row == sel.end.row && col <= sel.end.col)
        },
        _ => false,
    }
}

/// Tells whether a cell belongs to the selection.
pub fn is_in_selection(row: usize, col: usize, sel: &SelectionInfo) -> (r: bool)
    ensures
        r == selected(row, col, *sel),
{
    match sel.mode {
        DiffViewMode::Normal => false,
        DiffViewMode::VisualLine => row >= sel.start.row && row <= sel.end.row,
        DiffViewMode::Visual => {
            if row < sel.start.row || row > sel.end.row {
                return false;
            }
            if sel.start.row == sel.end.row {
                col >= sel.start.col && col <= sel.end.col
            } else if row == sel.start.row {
                col >= sel.start.col
            } else if row == sel.end.row {
                col <= sel.end.col
            } else {
                true
            }
        },
        DiffViewMode::Scroll => false,
    }
}

/// One search match within a row: its columns, whether it is the current
/// match, and its side.
#[derive(Debug, Clone, Copy, PartialEq, Eq, Structural)]
pub struct MatchSpan {
    pub col_start: usize,
    pub col_end: usize,
    pub is_current: bool,
    pub side: DiffSide,
}

/// The spans of the first `n` matches that lie in `row`, in their order.
pub open spec fn row_spans(
    matches: Seq<SearchMatch>,
    current: Option<usize>,
    row: usize,
    n: int,
) -> Seq<MatchSpan>
    decreases n,
{
    if n <= 0 {
        Seq::empty()
    } else {
        match matches[n - 1] {
            SearchMatch::DiffLine { row: r, col_start, col_end, side } => if r == row {
                row_spans(matches, current, row, n - 1).push(
                    MatchSpan { col_start, col_end, is_current: current == Some((n - 1) as usize), side },
                )
            } else {
                row_spans(matches, current, row, n - 1)
            },
            _ => row_spans(matches, current, row, n - 1),
        }
    }
}

/// Whether the first span from `from` on that covers `col` on `side` is
/// the current match; none where no span covers the cell.
pub open spec fn highlight_in(spans: Seq<MatchSpan>, col: usize, side: DiffSide, from: int) -> Option<
    bool,
>
    decreases spans.len() - from,
{
    if from < 0 || from >= spans.len() {
        None
    } else if spans[from].side == side && spans[from].col_start <= col < spans[from].col_end {
        Some(spans[from].is_current)
    } else {
        highlight_in(spans, col, side, from + 1)
    }
}

/// The search matches of the diff, by row.
pub struct SearchHighlightInfo {
    pub row_matches: HashMap<usize, Vec<MatchSpan>>,
}

impl SearchHighlightInfo {
    /// The rows hold exactly the spans of the first `n` matches.
    pub open spec fn holds(self, matches: Seq<SearchMatch>, current: Option<usize>, n: int) -> bool {
        forall|row: usize|
            {
                &&& self.row_matches@.contains_key(row) <==> (#[trigger] row_spans(
                    matches,
                    current,
                    row,
                    n,
                )).len() > 0
                &&& self.row_matches@.contains_key(row) ==> self.row_matches@[row]@ == row_spans(
                    matches,
                    current,
                    row,
                    n,
                )
            }
    }

    /// Sorts the matches of an active, non-empty query by row. There is
    /// none without such a query or without matches.
    pub fn from_search(search: &SearchState) -> (r: Option<Self>)
        ensures
            r is Some <==> (search.query is Some && search.query->0@.len() > 0
                && search.matches@.len() > 0),
            r matches Some(info) ==> info.holds(
                search.matches@,
                search.current_match_idx,
                search.matches@.len() as int,
            ),
    {
        match &search.query {
            Some(q) => {
                if q.as_str().is_empty() {
                    return None;
                }
            },
            None => {
                return None;
            },
        }
        if search.matches.len() == 0 {
            return None;
        }
        let ghost matches = search.matches@;
        let current = search.current_match_idx;
        let mut info = SearchHighlightInfo { row_matches: HashMap::new() };
        let mut i: usize = 0;
        while i < search.matches.len()
            invariant
                i <= search.matches.len(),
                matches == search.matches@,
                current == search.current_match_idx,
                info.holds(matches, current, i as int),
            decreases search.matches.len() - i,
        {
            match search.matches[i] {
                SearchMatch::DiffLine { row, col_start, col_end, side } => {
                    let is_current = match current {
                        Some(c) => c == i,
                        None => false,
                    };
                    let span = MatchSpan { col_start, col_end, is_current, side };
                    let ghost before = info.row_matches@;
                    let mut spans = match info.row_matches.remove(&row) {
                        Some(v) => v,
                        None => Vec::new(),
                    };
                    assert(spans@ =~= row_spans(matches, current, row, i as int));
                    spans.push(span);
                    info.row_matches.insert(row, spans);
                    assert forall|r: usize|
                        {
                            &&& info.row_matches@.contains_key(r) <==> (#[trigger] row_spans(
                                matches,
                                current,
                                r,
                                i + 1,
                            )).len() > 0
                            &&& info.row_matches@.contains_key(r) ==> info.row_matches@[r]@
                                == row_spans(matches, current, r, i + 1)
                        } by {
                        let was = row_spans(matches, current, r, i as int);
                        assert(before.contains_key(r) <==> was.len() > 0);
                    }
                },
                _ => {
                    assert forall|r: usize|
                        {
                            &&& info.row_matches@.contains_key(r) <==> (#[trigger] row_spans(
                                matches,
                                current,
                                r,
                                i + 1,
                            )).len() > 0
                            &&& info.row_matches@.contains_key(r) ==> info.row_matches@[r]@
                                == row_spans(matches, current, r, i + 1)
                        } by {
                        let was = row_spans(matches, current, r, i as int);
                        assert(info.row_matches@.contains_key(r) <==> was.len() > 0);
                    }
                },
            }
            i += 1;
        }
        Some(info)
    }

    /// The highlight of the cell at `row_idx`, `col` on the left or the
    /// right side: whether it lies in the current match, or that it lies in
    /// no match at all.
    pub fn get_highlight(&self, row_idx: usize, col: usize, is_left: bool) -> (r: Option<bool>)
        ensures
            r == if self.row_matches@.contains_key(row_idx) {
                highlight_in(
                    self.row_matches@[row_idx]@,
                    col,
                    if is_left {
                        DiffSide::Left
                    } else {
                        DiffSide::Right
                    },
                    0,
                )
            } else {
                None
            },
    {
        let side = if is_left {
            DiffSide::Left
        } else {
            DiffSide::Right
        };
        match self.row_matches.get(&row_idx) {
            Some(spans) => {
                let mut i: usize = 0;
                while i < spans.len()
                    invariant
                        i <= spans.len(),
                        self.row_matches@.contains_key(row_idx),
                        *spans == self.row_matches@[row_idx],
                        side == if is_left {
                            DiffSide::Left
                        } else {
                            DiffSide::Right
                        },
                        highlight_in(spans@, col, side, i as int) == highlight_in(
                            spans@,
                            col,
                            side,
                            0,
                        ),
                    decreases spans.len() - i,
                {
                    let span = spans[i];
                    if span.side == side && col >= span.col_start && col < span.col_end {
                        return Some(span.is_current);
                    }
                    i += 1;
                }
                None
            },
            None => None,
        }
    }
}

/// The part of a line that a pane of `width` columns shows when scrolled
/// `scroll_x` columns to the right.
pub open spec fn scrolled(content: Seq<char>, scroll_x: usize, width: usize) -> Seq<char> {
    let start = if scroll_x <= content.len() {
        scroll_x as int
    } else {
        content.len() as int
    };
    let end = if start + width <= content.len() {
        start + width
    } else {
        content.len() as int
    };
    content.subrange(start, end)
}

/// Cuts a line to what the pane shows.
pub fn scroll_content(content: &str, scroll_x: usize, width: usize) -> (r: String)
    ensures
        r@ == scrolled(content@, scroll_x, width),
{
    let chars = chars_of(content);
    let start = if scroll_x <= chars.len() {
        scroll_x
    } else {
        chars.len()
    };
    let end = if width <= chars.len() - start {
        start + width
    } else {
        chars.len()
    };
    string_of_range(&chars, start, end)
}

/// A text brought to exactly `width` characters: cut if it is longer,
/// filled with blanks if it is shorter.
pub open spec fn padded(s: Seq<char>, width: usize) -> Seq<char> {
    if s.len() >= width {
        s.take(width as int)
    } else {
        s + Seq::new((width - s.len()) as nat, |i: int| ' ')
    }
}

/// Cuts or fills a text to `width` characters.
pub fn pad_to_width(s: &str, width: usize) -> (r: String)
    ensures
        r@ == padded(s@, width),
        r@.len() == width,
{
    let chars = chars_of(s);
    if chars.len() >= width {
        let r = string_of_range(&chars, 0, width);
        assert(chars@.subrange(0, width as int) =~= chars@.take(width as int));
        r
    } else {
        let mut r = string_of_range(&chars, 0, chars.len());
        assert(chars@.subrange(0, chars.len() as int) =~= chars@);
        let fill = width - chars.len();
        let mut i: usize = 0;
        assert(r@ =~= s@ + Seq::new(0nat, |k: int| ' '));
        while i < fill
            invariant
                i <= fill,
                r@ == s@ + Seq::new(i as nat, |k: int| ' '),
            decreases fill - i,
        {
            r.push(' ');
            assert(Seq::new((i + 1) as nat, |k: int| ' ') =~= Seq::new(i as nat, |k: int| ' ').push(
                ' ',
            ));
            i += 1;
        }
        r
    }
}

/// The foreground and the background in which a row of a kind is drawn
/// on the left or the right side, where no syntax colour applies.
pub open spec fn row_tints(line_type: LineType, is_left: bool) -> (Tint, Option<Tint>) {
    match line_type {
        LineType::Context => (Tint::Reset, None),
        LineType::Added => if is_left {
            (Tint::Reset, Some(Tint::Rgb(0, 40, 0)))
        } else {
            (Tint::Green, Some(Tint::Rgb(0, 40, 0)))
        },
        LineType::Deleted => if is_left {
            (Tint::Red, Some(Tint::Rgb(40, 0, 0)))
        } else {
            (Tint::Green, Some(Tint::Rgb(0, 40, 0)))
        },
        LineType::HunkHeader => (Tint::Cyan, None),
    }
}

/// The semantic colours of a row.
pub fn line_colors(line_type: LineType, is_left: bool) -> (r: (Tint, Option<Tint>))
    ensures
        r == row_tints(line_type, is_left),
{
    match line_type {
        LineType::Context => (Tint::Reset, None),
        LineType::Added => {
            if is_left {
                (Tint::Reset, Some(Tint::Rgb(0, 40, 0)))
            } else {
                (Tint::Green, Some(Tint::Rgb(0, 40, 0)))
            }
        },
        LineType::Deleted => {
            if is_left {
                (Tint::Red, Some(Tint::Rgb(40, 0, 0)))
            } else {
                (Tint::Green, Some(Tint::Rgb(0, 40, 0)))
            }
        },
        LineType::HunkHeader => (Tint::Cyan, None),
    }
}

/// How a cell is drawn: foreground, background, and whether in bold.
#[derive(Debug, Clone, Copy, PartialEq, Eq)]
pub struct CellStyle {
    pub fg: Option<Tint>,
    pub bg: Option<Tint>,
    pub bold: bool,
}

/// A run of characters drawn in one style.
#[derive(Debug, PartialEq, Eq)]
pub struct StyledRun {
    pub text: String,
    pub style: CellStyle,
}

/// The cells that a sequence of runs draws, one per character.
pub open spec fn cells_of(runs: Seq<StyledRun>) -> Seq<(char, CellStyle)>
    decreases runs.len(),
{
    if runs.len() == 0 {
        Seq::empty()
    } else {
        cells_of(runs.drop_last()) + Seq::new(
            runs.last().text@.len(),
            |k: int| (runs.last().text@[k], runs.last().style),
        )
    }
}

fn same_style(a: &CellStyle, b: &CellStyle) -> (r: bool)
    ensures
        r == (*a == *b),
{
    let fg = match (a.fg, b.fg) {
        (Some(x), Some(y)) => x == y,
        (None, None) => true,
        _ => false,
    };
    let bg = match (a.bg, b.bg) {
        (Some(x), Some(y)) => x == y,
        (None, None) => true,
        _ => false,
    };
    fg && bg && a.bold == b.bold
}

/// Groups cells into runs: neighbours of one style share a run. The runs
/// draw exactly the cells; none is empty; neighbouring runs differ in style.
pub fn group_runs(cells: &Vec<(char, CellStyle)>) -> (runs: Vec<StyledRun>)
    ensures
        cells_of(runs@) == cells@,
        forall|k: int| 0 <= k < runs@.len() ==> (#[trigger] runs@[k]).text@.len() > 0,
        forall|k: int| 0 < k < runs@.len() ==> runs@[k - 1].style != (#[trigger] runs@[k]).style,
{
    let mut runs: Vec<StyledRun> = Vec::new();
    let mut i: usize = 0;
    assert(cells@.take(0) =~= Seq::<(char, CellStyle)>::empty());
    while i < cells.len()
        invariant
            i <= cells.len(),
            cells_of(runs@) == cells@.take(i as int),
            forall|k: int| 0 <= k < runs@.len() ==> (#[trigger] runs@[k]).text@.len() > 0,
            forall|k: int| 0 < k < runs@.len() ==> runs@[k - 1].style != (#[trigger] runs@[k]).style,
            i > 0 ==> runs@.len() > 0 && runs@.last().style == cells@[i - 1].1,
            0 < i < cells.len() ==> cells@[i as int].1 != runs@.last().style,
            i == 0 ==> runs@.len() == 0,
        decreases cells.len() - i,
    {
        let style = cells[i].1;
        let mut text = String::new();
        text.push(cells[i].0);
        let mut j: usize = i + 1;
        while j < cells.len() && same_style(&cells[j].1, &style)
            invariant
                i < j <= cells.len(),
                text@.len() == j - i,
                forall|m: int|
                    i <= m < j ==> (#[trigger] cells@[m]).1 == style && text@[m - i] == cells@[m].0,
            decreases cells.len() - j,
        {
            text.push(cells[j].0);
            j += 1;
        }
        let ghost before = runs@;
        let run = StyledRun { text, style };
        runs.push(run);
        proof {
            assert(runs@.drop_last() =~= before);
            assert(runs@.last() == run);
            assert(cells@.take(j as int) =~= cells@.take(i as int) + Seq::new(
                run.text@.len(),
                |k: int| (run.text@[k], run.style),
            ));
        }
        proof {
            assert(cells@[j - 1].1 == style);
        }
        i = j;
    }
    assert(cells@.take(i as int) =~= cells@);
    runs
}

/// The terminal colour for a syntax colour.
pub open spec fn tint_of(c: Rgb) -> Tint {
    Tint::Rgb(c.r, c.g, c.b)
}

/// The foreground of a style, or the terminal's own where it names none.
pub open spec fn base_fg(base: CellStyle) -> Tint {
    match base.fg {
        Some(t) => t,
        None => Tint::Reset,
    }
}

/// The search highlight of a cell, where search highlights are there.
pub open spec fn search_at(
    search_hl: Option<SearchHighlightInfo>,
    row: usize,
    col: usize,
    is_left: bool,
) -> Option<bool> {
    match search_hl {
        Some(info) => if info.row_matches@.contains_key(row) {
            highlight_in(
                info.row_matches@[row]@,
                col,
                if is_left {
                    DiffSide::Left
                } else {
                    DiffSide::Right
                },
                0,
            )
        } else {
            None
        },
        None => None,
    }
}

/// A cell's style under the search highlights: the current match in
/// black on orange, another match on dark yellow, otherwise the base style
/// with the cell's foreground.
pub open spec fn searched(base: CellStyle, fg: Tint, hit: Option<bool>) -> CellStyle {
    match hit {
        Some(current) => if current {
            CellStyle { fg: Some(Tint::Black), bg: Some(Tint::Rgb(200, 120, 0)), ..base }
        } else {
            CellStyle { fg: Some(fg), bg: Some(Tint::Rgb(60, 60, 0)), ..base }
        },
        None => CellStyle { fg: Some(fg), ..base },
    }
}

/// An index, capped at the largest.
pub open spec fn capped_index(i: int) -> usize {
    if i <= usize::MAX {
        i as usize
    } else {
        usize::MAX
    }
}

/// The character that column `i` of a pane shows of a line scrolled to
/// `scroll_x`: a blank behind the end of the line.
pub open spec fn shown_char(content: Seq<char>, scroll_x: usize, i: int) -> char {
    let start = if scroll_x <= content.len() {
        scroll_x as int
    } else {
        content.len() as int
    };
    if start + i < content.len() {
        content[start + i]
    } else {
        ' '
    }
}

/// The cell at column `i` of a row drawn with syntax colours and search
/// highlights, without cursor or selection.
pub open spec fn syntax_cell(
    content: Seq<char>,
    scroll_x: usize,
    base: CellStyle,
    colors: Seq<Rgb>,
    search_hl: Option<SearchHighlightInfo>,
    row: usize,
    is_left: bool,
    i: int,
) -> (char, CellStyle) {
    let start = if scroll_x <= content.len() {
        scroll_x as int
    } else {
        content.len() as int
    };
    let idx = capped_index(start + i);
    let fg = if idx < colors.len() {
        tint_of(colors[idx as int])
    } else {
        base_fg(base)
    };
    (shown_char(content, scroll_x, i), searched(base, fg, search_at(search_hl, row, idx, is_left)))
}

/// The cell at column `i` of a row on the side of the cursor: the cursor
/// in black on white; then the search highlights; then the selection on
/// blue; otherwise the syntax colour.
pub open spec fn highlighted_cell(
    content: Seq<char>,
    row: usize,
    scroll_x: usize,
    sel: SelectionInfo,
    base: CellStyle,
    colors: Option<Seq<Rgb>>,
    search_hl: Option<SearchHighlightInfo>,
    is_left: bool,
    i: int,
) -> (char, CellStyle) {
    let col = capped_index(i + scroll_x);
    let fg = match colors {
        Some(c) => if col < c.len() {
            tint_of(c[col as int])
        } else {
            base_fg(base)
        },
        None => base_fg(base),
    };
    let hit = search_at(search_hl, row, col, is_left);
    let style = if sel.cursor.row == row && sel.cursor.col == col {
        CellStyle { fg: Some(Tint::Black), bg: Some(Tint::White), ..base }
    } else if hit is Some {
        searched(base, fg, hit)
    } else if selected(row, col, sel) {
        CellStyle { fg: Some(fg), bg: Some(Tint::Rgb(60, 60, 100)), ..base }
    } else {
        CellStyle { fg: Some(fg), ..base }
    };
    (shown_char(content, scroll_x, i), style)
}

fn search_lookup(
    search_hl: &Option<SearchHighlightInfo>,
    row: usize,
    col: usize,
    is_left: bool,
) -> (r: Option<bool>)
    ensures
        r == search_at(*search_hl, row, col, is_left),
{
    match search_hl {
        Some(info) => info.get_highlight(row, col, is_left),
        None => None,
    }
}

fn with_search(base: CellStyle, fg: Tint, hit: Option<bool>) -> (r: CellStyle)
    ensures
        r == searched(base, fg, hit),
{
    match hit {
        Some(current) => {
            if current {
                CellStyle { fg: Some(Tint::Black), bg: Some(Tint::Rgb(200, 120, 0)), bold: base.bold }
            } else {
                CellStyle { fg: Some(fg), bg: Some(Tint::Rgb(60, 60, 0)), bold: base.bold }
            }
        },
        None => CellStyle { fg: Some(fg), bg: base.bg, bold: base.bold },
    }
}

fn fg_of(base: &CellStyle) -> (t: Tint)
    ensures
        t == base_fg(*base),
{
    match base.fg {
        Some(t) => t,
        None => Tint::Reset,
    }
}

/// The runs of a row drawn with syntax colours and search highlights,
/// without cursor or selection: `content_width` cells.
pub fn build_syntax_spans(
    content: &str,
    content_width: usize,
    scroll_x: usize,
    base_style: CellStyle,
    syntax_colors: &Vec<Rgb>,
    search_hl: &Option<SearchHighlightInfo>,
    row_idx: usize,
    is_left: bool,
) -> (runs: Vec<StyledRun>)
    ensures
        cells_of(runs@) == Seq::new(
            content_width as nat,
            |i: int|
                syntax_cell(
                    content@,
                    scroll_x,
                    base_style,
                    syntax_colors@,
                    *search_hl,
                    row_idx,
                    is_left,
                    i,
                ),
        ),
        forall|k: int| 0 <= k < runs@.len() ==> (#[trigger] runs@[k]).text@.len() > 0,
        forall|k: int| 0 < k < runs@.len() ==> runs@[k - 1].style != (#[trigger] runs@[k]).style,
{
    let chars = chars_of(content);
    let start = if scroll_x <= chars.len() {
        scroll_x
    } else {
        chars.len()
    };
    let mut cells: Vec<(char, CellStyle)> = Vec::new();
    let mut i: usize = 0;
    while i < content_width
        invariant
            i <= content_width,
            chars@ == content@,
            start == if scroll_x <= chars.len() {
                scroll_x
            } else {
                chars.len()
            },
            cells@ =~= Seq::new(
                i as nat,
                |k: int|
                    syntax_cell(
                        content@,
                        scroll_x,
                        base_style,
                        syntax_colors@,
                        *search_hl,
                        row_idx,
                        is_left,
                        k,
                    ),
            ),
        decreases content_width - i,
    {
        let idx = start.saturating_add(i);
        let ch = if i < chars.len() - start {
            chars[start + i]
        } else {
            ' '
        };
        let fg = if idx < syntax_colors.len() {
            let c = syntax_colors[idx];
            Tint::Rgb(c.r, c.g, c.b)
        } else {
            fg_of(&base_style)
        };
        let style = with_search(base_style, fg, search_lookup(search_hl, row_idx, idx, is_left));
        cells.push((ch, style));
        i += 1;
    }
    group_runs(&cells)
}

/// The runs of a row on the side of the cursor, with cursor, selection,
/// search highlights and syntax colours: `content_width` cells.
pub fn build_highlighted_spans(
    content: &str,
    row_idx: usize,
    content_width: usize,
    scroll_x: usize,
    sel: &SelectionInfo,
    base_style: CellStyle,
    syntax_colors: Option<&Vec<Rgb>>,
    search_hl: &Option<SearchHighlightInfo>,
    is_left: bool,
) -> (runs: Vec<StyledRun>)
    ensures
        cells_of(runs@) == Seq::new(
            content_width as nat,
            |i: int|
                highlighted_cell(
                    content@,
                    row_idx,
                    scroll_x,
                    *sel,
                    base_style,
                    match syntax_colors {
                        Some(c) => Some(c@),
                        None => None,
                    },
                    *search_hl,
                    is_left,
                    i,
                ),
        ),
        forall|k: int| 0 <= k < runs@.len() ==> (#[trigger] runs@[k]).text@.len() > 0,
        forall|k: int| 0 < k < runs@.len() ==> runs@[k - 1].style != (#[trigger] runs@[k]).style,
{
    let chars = chars_of(content);
    let start = if scroll_x <= chars.len() {
        scroll_x
    } else {
        chars.len()
    };
    let ghost colors = match syntax_colors {
        Some(c) => Some(c@),
        None => None,
    };
    let mut cells: Vec<(char, CellStyle)> = Vec::new();
    let mut i: usize = 0;
    while i < content_width
        invariant
            i <= content_width,
            chars@ == content@,
            colors == match syntax_colors {
                Some(c) => Some(c@),
                None => None,
            },
            start == if scroll_x <= chars.len() {
                scroll_x
            } else {
                chars.len()
            },
            cells@ =~= Seq::new(
                i as nat,
                |k: int|
                    highlighted_cell(
                        content@,
                        row_idx,
                        scroll_x,
                        *sel,
                        base_style,
                        colors,
                        *search_hl,
                        is_left,
                        k,
                    ),
            ),
        decreases content_width - i,
    {
        let col = i.saturating_add(scroll_x);
        let ch = if i < chars.len() - start {
            chars[start + i]
        } else {
            ' '
        };
        let fg = match syntax_colors {
            Some(c) => {
                if col < c.len() {
                    let rgb = c[col];
                    Tint::Rgb(rgb.r, rgb.g, rgb.b)
                } else {
                    fg_of(&base_style)
                }
            },
            None => fg_of(&base_style),
        };
        let hit = search_lookup(search_hl, row_idx, col, is_left);
        let style = if sel.cursor.row == row_idx && sel.cursor.col == col {
            CellStyle { fg: Some(Tint::Black), bg: Some(Tint::White), bold: base_style.bold }
        } else if hit.is_some() {
            with_search(base_style, fg, hit)
        } else if is_in_selection(row_idx, col, sel) {
            CellStyle { fg: Some(fg), bg: Some(Tint::Rgb(60, 60, 100)), bold: base_style.bold }
        } else {
            CellStyle { fg: Some(fg), bg: base_style.bg, bold: base_style.bold }
        };
        cells.push((ch, style));
        i += 1;
    }
    group_runs(&cells)
}

/// A number's successor, capped at the largest.
pub open spec fn shown_number(n: usize) -> nat {
    if n < usize::MAX {
        (n + 1) as nat
    } else {
        n as nat
    }
}

/// What the status line tells of the position. In Scroll mode: `Empty`
/// without lines, `All` where everything fits, `Top` and `Bot` at the ends,
/// else how far down the view is, in percent. In the other modes: the
/// cursor's row and column, counted from one.
pub open spec fn position_text(state: DiffViewState, total_lines: u16) -> Seq<char> {
    if state.mode == DiffViewMode::Scroll {
        if total_lines == 0 {
            "Empty"@
        } else if total_lines <= state.view_height {
            "All"@
        } else if state.scroll_y == 0 {
            "Top"@
        } else if state.scroll_y >= total_lines - state.view_height {
            "Bot"@
        } else {
            decimal((state.scroll_y * 100 / (total_lines - 1)) as nat) + seq!['%']
        }
    } else {
        decimal(shown_number(state.cursor_pos.row)) + seq![':'] + decimal(
            shown_number(state.cursor_pos.col),
        )
    }
}

/// The position shown in the status line.
pub fn position_info(state: &DiffViewState, total_lines: u16) -> (r: String)
    ensures
        r@ == position_text(*state, total_lines),
{
    match state.mode {
        DiffViewMode::Scroll => {
            if total_lines == 0 {
                "Empty".to_owned()
            } else if total_lines <= state.view_height {
                "All".to_owned()
            } else if state.scroll_y == 0 {
                "Top".to_owned()
            } else if state.scroll_y >= total_lines - state.view_height {
                "Bot".to_owned()
            } else {
                let y: u64 = state.scroll_y.into();
                let t: u64 = total_lines.into();
                let mut r = String::new();
                push_decimal(&mut r, y * 100 / (t - 1));
                r.push('%');
                assert(r@ =~= position_text(*state, total_lines));
                r
            }
        },
        _ => {
            let row = state.cursor_pos.row;
            let col = state.cursor_pos.col;
            let mut r = String::new();
            push_decimal(&mut r, (if row < usize::MAX {
                row + 1
            } else {
                row
            }) as u64);
            r.push(':');
            push_decimal(&mut r, (if col < usize::MAX {
                col + 1
            } else {
                col
            }) as u64);
            assert(r@ =~= position_text(*state, total_lines));
            r
        },
    }
}

/// The keys typed so far of a command that is not complete: the count,
/// then the pending prefix (`Ctrl+w` for Control-w).
pub open spec fn pending_text(state: DiffViewState) -> Seq<char> {
    (match state.count {
        Some(c) => decimal(c as nat),
        None => Seq::empty(),
    }) + (match state.pending_key {
        Some(k) => if k == 'w' {
            "Ctrl+w"@
        } else {
            seq![k]
        },
        None => Seq::empty(),
    })
}

/// The pending command shown in the status line.
pub fn showcmd(state: &DiffViewState) -> (r: String)
    ensures
        r@ == pending_text(*state),
{
    let mut r = String::new();
    match state.count {
        Some(c) => {
            push_decimal(&mut r, c as u64);
        },
        None => {},
    }
    match state.pending_key {
        Some(k) => {
            if k == 'w' {
                push_text(&mut r, "Ctrl+w");
            } else {
                r.push(k);
            }
        },
        None => {},
    }
    assert(r@ =~= pending_text(*state));
    r
}

/// The file type shown in the status line: the extension of the path, if
/// it is shorter than ten characters and holds no slash; else nothing.
pub open spec fn filetype_of(path: Seq<char>) -> Seq<char> {
    let ext = extension_of(path);
    if ext.len() < 10 && !ext.contains('/') {
        ext
    } else {
        Seq::empty()
    }
}

/// The file type shown in the status line.
pub fn filetype(path: &str) -> (r: String)
    ensures
        r@ == filetype_of(path@),
{
    let ext = extension(path);
    let chars = chars_of(ext.as_str());
    if chars.len() >= 10 {
        return String::new();
    }
    let mut i: usize = 0;
    while i < chars.len()
        invariant
            i <= chars.len(),
            chars@ == ext@,
            ext@ == extension_of(path@),
            forall|k: int| 0 <= k < i ==> chars@[k] != '/',
        decreases chars.len() - i,
    {
        if chars[i] == '/' {
            assert(ext@[i as int] == '/');
            return String::new();
        }
        i += 1;
    }
    ext
}

} // verus!
