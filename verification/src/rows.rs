//! The rows of the diff pane as they are drawn: for every display row and
//! side a sequence of styled runs, with the gutter, the syntax colours, the
//! selection and the search highlights, and the status line below them.

use crate::cursor::{DiffSide, DiffViewMode};
use crate::diff::{flat_len, FileDiff, HunkView, LineType, RowView, SideLine, SideLineView};
use crate::modal::DiffViewState;
use crate::syntax::Rgb;
use crate::text::{char_count, decimal, decimal_chars, push_range, push_text};
use crate::view::{
    build_highlighted_spans, build_syntax_spans, capped_index, cells_of, filetype, filetype_of,
    highlighted_cell, line_colors, pad_to_width, padded, pending_text, position_info,
    position_text, row_tints, showcmd, syntax_cell, CellStyle, SearchHighlightInfo,
    SelectionInfo, StyledRun, Tint,
};
use vstd::prelude::*;

verus! {

broadcast use vstd::std_specs::hash::group_hash_axioms;

/// A style with a foreground and nothing else.
pub open spec fn tinted(fg: Tint) -> CellStyle {
    CellStyle { fg: Some(fg), bg: None, bold: false }
}

/// The style that names nothing.
pub open spec fn unstyled() -> CellStyle {
    CellStyle { fg: None, bg: None, bold: false }
}

/// A run of a text in a style.
pub fn text_run(text: &str, style: CellStyle) -> (run: StyledRun)
    ensures
        (run.text@, run.style) == (text@, style),
{
    StyledRun { text: text.to_owned(), style }
}

/// A run of a text in a colour.
pub fn tinted_run(text: &str, fg: Tint) -> (run: StyledRun)
    ensures
        (run.text@, run.style) == (text@, tinted(fg)),
{
    StyledRun { text: text.to_owned(), style: CellStyle { fg: Some(fg), bg: None, bold: false } }
}

/// A run of a text without a style.
pub fn bare_run(text: &str) -> (run: StyledRun)
    ensures
        (run.text@, run.style) == (text@, unstyled()),
{
    StyledRun { text: text.to_owned(), style: CellStyle { fg: None, bg: None, bold: false } }
}

/// The style of a hunk header: bold cyan.
pub open spec fn header_style() -> CellStyle {
    CellStyle { fg: Some(Tint::Cyan), bg: None, bold: true }
}

/// `n` blanks.
pub open spec fn blanks(n: int) -> Seq<char> {
    Seq::new(
        if n > 0 {
            n as nat
        } else {
            0
        },
        |i: int| ' ',
    )
}

/// The cells of a text drawn in one style.
pub open spec fn text_cells(text: Seq<char>, style: CellStyle) -> Seq<(char, CellStyle)> {
    Seq::new(text.len(), |i: int| (text[i], style))
}

/// The gutter of a line: its number, right-aligned in four columns, and a
/// blank.
pub open spec fn gutter_of(line_no: u32) -> Seq<char> {
    let digits = decimal(line_no as nat);
    (blanks(4 - digits.len()) + digits).push(' ')
}

/// The width that the gutter takes from a pane.
pub open spec fn gutter_width() -> usize {
    5
}

/// Appends `n` blanks.
pub fn push_blanks(out: &mut String, n: usize)
    ensures
        final(out)@ == old(out)@ + blanks(n as int),
{
    let mut i: usize = 0;
    assert(out@ =~= old(out)@ + blanks(0));
    while i < n
        invariant
            i <= n,
            out@ == old(out)@ + blanks(i as int),
        decreases n - i,
    {
        out.push(' ');
        assert(old(out)@ + blanks(i + 1) =~= (old(out)@ + blanks(i as int)).push(' '));
        i += 1;
    }
}

/// Writes the gutter of a line.
pub fn gutter(line_no: u32) -> (r: String)
    ensures
        r@ == gutter_of(line_no),
{
    let digits = decimal_chars(line_no as u64);
    let mut r = String::new();
    let fill: usize = if digits.len() < 4 {
        4 - digits.len()
    } else {
        0
    };
    push_blanks(&mut r, fill);
    push_range(&mut r, &digits, 0, digits.len());
    r.push(' ');
    assert(digits@.subrange(0, digits.len() as int) =~= digits@);
    assert(r@ =~= gutter_of(line_no));
    r
}

/// The cells of one run.
pub proof fn lemma_cells_of_one(run: StyledRun)
    ensures
        cells_of(seq![run]) == text_cells(run.text@, run.style),
{
    let one = seq![run];
    assert(one.drop_last() =~= Seq::<StyledRun>::empty());
    assert(cells_of(one.drop_last()) =~= Seq::<(char, CellStyle)>::empty());
    assert(one.last() == run);
    assert(cells_of(one) =~= text_cells(run.text@, run.style));
}

/// The cells of runs behind one another are their cells behind one another.
pub proof fn lemma_cells_of_joined(a: Seq<StyledRun>, b: Seq<StyledRun>)
    ensures
        cells_of(a + b) == cells_of(a) + cells_of(b),
    decreases b.len(),
{
    if b.len() == 0 {
        assert(a + b =~= a);
        assert(cells_of(a) + cells_of(b) =~= cells_of(a));
    } else {
        lemma_cells_of_joined(a, b.drop_last());
        assert((a + b).drop_last() =~= a + b.drop_last());
        assert((a + b).last() == b.last());
        assert(cells_of(a + b) =~= cells_of(a) + cells_of(b));
    }
}

/// Whether a side is the one the cursor is on.
pub open spec fn on_cursor_side(sel: SelectionInfo, is_left: bool) -> bool {
    (sel.cursor.side == DiffSide::Left) == is_left
}

/// Whether a row shows the cursor or a selection: in Normal mode the
/// cursor's row, in the Visual modes every row.
pub open spec fn shows_selection(sel: SelectionInfo, row: usize) -> bool {
    match sel.mode {
        DiffViewMode::Normal => sel.cursor.row == row,
        DiffViewMode::Visual => true,
        DiffViewMode::VisualLine => true,
        DiffViewMode::Scroll => false,
    }
}

/// Whether a search match lies in a row.
pub open spec fn row_has_match(search_hl: Option<SearchHighlightInfo>, row: usize) -> bool {
    match search_hl {
        Some(info) => info.row_matches@.contains_key(row),
        None => false,
    }
}

/// The cell at column `i` of a line's content: drawn with cursor and
/// selection on the cursor's side where the row shows them or holds a
/// search match, otherwise with syntax colours and search highlights only.
pub open spec fn content_cell(
    content: Seq<char>,
    line_type: LineType,
    is_left: bool,
    scroll_x: usize,
    row: usize,
    selection: Option<SelectionInfo>,
    colors: Option<Seq<Rgb>>,
    search_hl: Option<SearchHighlightInfo>,
    i: int,
) -> (char, CellStyle) {
    let tints = row_tints(line_type, is_left);
    let base = CellStyle { fg: Some(tints.0), bg: tints.1, bold: false };
    if selection is Some && on_cursor_side(selection->0, is_left) && (shows_selection(
        selection->0,
        row,
    ) || row_has_match(search_hl, row)) {
        highlighted_cell(content, row, scroll_x, selection->0, base, colors, search_hl, is_left, i)
    } else {
        syntax_cell(
            content,
            scroll_x,
            base,
            match colors {
                Some(c) => c,
                None => Seq::empty(),
            },
            search_hl,
            row,
            is_left,
            i,
        )
    }
}

/// The cells of one side of a row in a pane of `width` columns: blanks
/// where the side has no line; otherwise the gutter in dark gray and the
/// content in the columns that are left.
pub open spec fn side_cells(
    side: Option<SideLineView>,
    line_type: LineType,
    is_left: bool,
    width: usize,
    scroll_x: usize,
    row: usize,
    selection: Option<SelectionInfo>,
    colors: Option<Seq<Rgb>>,
    search_hl: Option<SearchHighlightInfo>,
) -> Seq<(char, CellStyle)> {
    match side {
        None => text_cells(blanks(width as int), unstyled()),
        Some(line) => text_cells(gutter_of(line.line_no), tinted(Tint::DarkGray)) + Seq::new(
            if width >= gutter_width() {
                (width - gutter_width()) as nat
            } else {
                0
            },
            |i: int|
                content_cell(
                    line.content,
                    line_type,
                    is_left,
                    scroll_x,
                    row,
                    selection,
                    colors,
                    search_hl,
                    i,
                ),
        ),
    }
}

/// Draws one side of a row.
pub fn draw_side(
    side: Option<&SideLine>,
    line_type: LineType,
    is_left: bool,
    width: usize,
    scroll_x: usize,
    row_idx: usize,
    selection: &Option<SelectionInfo>,
    syntax_colors: Option<&Vec<Rgb>>,
    search_hl: &Option<SearchHighlightInfo>,
) -> (runs: Vec<StyledRun>)
    ensures
        cells_of(runs@) == side_cells(
            match side {
                Some(l) => Some(l.deep_view()),
                None => None,
            },
            line_type,
            is_left,
            width,
            scroll_x,
            row_idx,
            *selection,
            match syntax_colors {
                Some(c) => Some(c@),
                None => None,
            },
            *search_hl,
        ),
{
    let mut runs: Vec<StyledRun> = Vec::new();
    let line = match side {
        Some(line) => line,
        None => {
            let run = StyledRun {
                text: pad_to_width("", width),
                style: CellStyle { fg: None, bg: None, bold: false },
            };
            proof {
                reveal_strlit("");
                lemma_cells_of_one(run);
                assert(padded(""@, width) =~= blanks(width as int));
            }
            runs.push(run);
            assert(runs@ =~= seq![run]);
            return runs;
        },
    };
    let content_width: usize = if width >= 5 {
        width - 5
    } else {
        0
    };
    let first = StyledRun {
        text: gutter(line.line_no),
        style: CellStyle { fg: Some(Tint::DarkGray), bg: None, bold: false },
    };
    let tints = line_colors(line_type, is_left);
    let base = CellStyle { fg: Some(tints.0), bg: tints.1, bold: false };
    let has_search = match search_hl {
        Some(info) => info.row_matches.contains_key(&row_idx),
        None => false,
    };
    let with_selection = match selection {
        Some(sel) => {
            let on_side = match sel.cursor.side {
                DiffSide::Left => is_left,
                DiffSide::Right => !is_left,
            };
            let shows = match sel.mode {
                DiffViewMode::Normal => sel.cursor.row == row_idx,
                DiffViewMode::Visual => true,
                DiffViewMode::VisualLine => true,
                DiffViewMode::Scroll => false,
            };
            on_side && (shows || has_search)
        },
        None => false,
    };
    let mut rest = match selection {
        Some(sel) if with_selection => build_highlighted_spans(
            line.content.as_str(),
            row_idx,
            content_width,
            scroll_x,
            sel,
            base,
            syntax_colors,
            search_hl,
            is_left,
        ),
        _ => {
            let none: Vec<Rgb> = Vec::new();
            let colors = match syntax_colors {
                Some(c) => c,
                None => &none,
            };
            build_syntax_spans(
                line.content.as_str(),
                content_width,
                scroll_x,
                base,
                colors,
                search_hl,
                row_idx,
                is_left,
            )
        },
    };
    proof {
        lemma_cells_of_one(first);
        lemma_cells_of_joined(seq![first], rest@);
    }
    runs.push(first);
    assert(runs@ =~= seq![first]);
    runs.append(&mut rest);
    proof {
        let shown = side_cells(
            Some(line.deep_view()),
            line_type,
            is_left,
            width,
            scroll_x,
            row_idx,
            *selection,
            match syntax_colors {
                Some(c) => Some(c@),
                None => None,
            },
            *search_hl,
        );
        assert(cells_of(runs@) =~= shown);
    }
    runs
}

/// The cells of a hunk header in a pane of `width` columns. On the cursor's
/// side it is drawn with cursor and selection; while a search is shown and
/// nothing is selected, with the search highlights; otherwise cut or filled
/// to the pane, in the header's style.
pub open spec fn header_cells(
    header: Seq<char>,
    row: usize,
    width: usize,
    scroll_x: usize,
    selection: Option<SelectionInfo>,
    search_hl: Option<SearchHighlightInfo>,
    is_left: bool,
) -> Seq<(char, CellStyle)> {
    match selection {
        Some(sel) => if on_cursor_side(sel, is_left) {
            Seq::new(
                width as nat,
                |i: int|
                    highlighted_cell(
                        header,
                        row,
                        scroll_x,
                        sel,
                        header_style(),
                        None,
                        search_hl,
                        is_left,
                        i,
                    ),
            )
        } else {
            text_cells(padded(header, width), header_style())
        },
        None => if search_hl is Some {
            Seq::new(
                width as nat,
                |i: int|
                    syntax_cell(
                        header,
                        scroll_x,
                        header_style(),
                        Seq::empty(),
                        search_hl,
                        row,
                        is_left,
                        i,
                    ),
            )
        } else {
            text_cells(padded(header, width), header_style())
        },
    }
}

/// Draws a hunk header.
pub fn draw_header(
    header: &str,
    row_idx: usize,
    width: usize,
    scroll_x: usize,
    selection: &Option<SelectionInfo>,
    search_hl: &Option<SearchHighlightInfo>,
    is_left: bool,
) -> (runs: Vec<StyledRun>)
    ensures
        cells_of(runs@) == header_cells(
            header@,
            row_idx,
            width,
            scroll_x,
            *selection,
            *search_hl,
            is_left,
        ),
{
    let style = CellStyle { fg: Some(Tint::Cyan), bg: None, bold: true };
    let on_side = match selection {
        Some(sel) => match sel.cursor.side {
            DiffSide::Left => is_left,
            DiffSide::Right => !is_left,
        },
        None => false,
    };
    match selection {
        Some(sel) if on_side => build_highlighted_spans(
            header,
            row_idx,
            width,
            scroll_x,
            sel,
            style,
            None,
            search_hl,
            is_left,
        ),
        None if search_hl.is_some() => {
            let none: Vec<Rgb> = Vec::new();
            build_syntax_spans(header, width, scroll_x, style, &none, search_hl, row_idx, is_left)
        },
        _ => {
            let run = StyledRun { text: pad_to_width(header, width), style };
            let mut runs: Vec<StyledRun> = Vec::new();
            runs.push(run);
            proof {
                lemma_cells_of_one(run);
                assert(runs@ =~= seq![run]);
            }
            runs
        },
    }
}

/// The line that a row shows on a side.
pub open spec fn side_of(row: RowView, is_left: bool) -> Option<SideLineView> {
    if is_left {
        row.left
    } else {
        row.right
    }
}

/// The syntax colours of a row, where it has been coloured.
pub open spec fn colors_at(colors: Seq<Seq<Rgb>>, row: int) -> Option<Seq<Rgb>> {
    if 0 <= row < colors.len() {
        Some(colors[row])
    } else {
        None
    }
}

/// The cells of the display rows of one hunk, whose header is row `first`
/// of the file: the header, then one row after the other.
pub open spec fn hunk_drawn(
    hunk: HunkView,
    first: int,
    is_left: bool,
    width: usize,
    scroll_x: usize,
    selection: Option<SelectionInfo>,
    colors: Seq<Seq<Rgb>>,
    search_hl: Option<SearchHighlightInfo>,
) -> Seq<Seq<(char, CellStyle)>> {
    seq![header_cells(hunk.header, first as usize, width, scroll_x, selection, search_hl, is_left)]
        + Seq::new(
        hunk.rows.len(),
        |k: int|
            side_cells(
                side_of(hunk.rows[k], is_left),
                hunk.rows[k].line_type,
                is_left,
                width,
                scroll_x,
                (first + 1 + k) as usize,
                selection,
                colors_at(colors, first + 1 + k),
                search_hl,
            ),
    )
}

/// The cells of all display rows of a file on one side, in the order of
/// the flattened content.
pub open spec fn drawn(
    hunks: Seq<HunkView>,
    is_left: bool,
    width: usize,
    scroll_x: usize,
    selection: Option<SelectionInfo>,
    colors: Seq<Seq<Rgb>>,
    search_hl: Option<SearchHighlightInfo>,
) -> Seq<Seq<(char, CellStyle)>>
    decreases hunks.len(),
{
    if hunks.len() == 0 {
        Seq::empty()
    } else {
        drawn(hunks.drop_last(), is_left, width, scroll_x, selection, colors, search_hl)
            + hunk_drawn(
            hunks.last(),
            flat_len(hunks.drop_last()) as int,
            is_left,
            width,
            scroll_x,
            selection,
            colors,
            search_hl,
        )
    }
}

/// The cells that each of the lines draws.
pub open spec fn lines_cells(lines: Seq<Vec<StyledRun>>) -> Seq<Seq<(char, CellStyle)>> {
    Seq::new(lines.len(), |i: int| cells_of(lines[i]@))
}

/// There is one drawn row for every display line.
pub proof fn lemma_drawn_len(
    hunks: Seq<HunkView>,
    is_left: bool,
    width: usize,
    scroll_x: usize,
    selection: Option<SelectionInfo>,
    colors: Seq<Seq<Rgb>>,
    search_hl: Option<SearchHighlightInfo>,
)
    ensures
        drawn(hunks, is_left, width, scroll_x, selection, colors, search_hl).len() == flat_len(
            hunks,
        ),
    decreases hunks.len(),
{
    if hunks.len() > 0 {
        lemma_drawn_len(hunks.drop_last(), is_left, width, scroll_x, selection, colors, search_hl);
    }
}

/// Draws the rows of a file on one side.
pub fn draw_lines(
    file: &FileDiff,
    is_left: bool,
    width: usize,
    scroll_x: usize,
    selection: &Option<SelectionInfo>,
    colors: &Vec<Vec<Rgb>>,
    search_hl: &Option<SearchHighlightInfo>,
) -> (lines: Vec<Vec<StyledRun>>)
    ensures
        lines_cells(lines@) == drawn(
            file.deep_view().hunks,
            is_left,
            width,
            scroll_x,
            *selection,
            colors.deep_view(),
            *search_hl,
        ),
        lines@.len() == flat_len(file.deep_view().hunks),
{
    let ghost hunks = file.deep_view().hunks;
    let ghost tints = colors.deep_view();
    let ghost sel = *selection;
    let ghost hl = *search_hl;
    let mut lines: Vec<Vec<StyledRun>> = Vec::new();
    let mut h: usize = 0;
    assert(hunks.take(0) =~= Seq::<HunkView>::empty());
    assert(lines_cells(lines@) =~= drawn(hunks.take(0), is_left, width, scroll_x, sel, tints, hl));
    while h < file.hunks.len()
        invariant
            h <= file.hunks.len(),
            hunks == file.deep_view().hunks,
            tints == colors.deep_view(),
            sel == *selection,
            hl == *search_hl,
            lines@.len() == flat_len(hunks.take(h as int)),
            lines_cells(lines@) == drawn(hunks.take(h as int), is_left, width, scroll_x, sel, tints, hl),
        decreases file.hunks.len() - h,
    {
        let hunk = &file.hunks[h];
        let ghost view = hunks[h as int];
        assert(view == hunk.deep_view());
        let ghost before = lines_cells(lines@);
        let first = lines.len();
        let head = draw_header(
            hunk.header.as_str(),
            first,
            width,
            scroll_x,
            selection,
            search_hl,
            is_left,
        );
        lines.push(head);
        let ghost whole = hunk_drawn(view, first as int, is_left, width, scroll_x, sel, tints, hl);
        assert(lines_cells(lines@) =~= before + whole.take(1));
        let mut k: usize = 0;
        while k < hunk.rows.len()
            invariant
                k <= hunk.rows.len(),
                view == hunk.deep_view(),
                tints == colors.deep_view(),
                sel == *selection,
                hl == *search_hl,
                whole == hunk_drawn(view, first as int, is_left, width, scroll_x, sel, tints, hl),
                lines@.len() == first + 1 + k,
                lines_cells(lines@) == before + whole.take(1 + k),
            decreases hunk.rows.len() - k,
        {
            let row = &hunk.rows[k];
            assert(view.rows[k as int] == row.deep_view());
            let row_idx = lines.len();
            let side = if is_left {
                match &row.left {
                    Some(l) => Some(l),
                    None => None,
                }
            } else {
                match &row.right {
                    Some(l) => Some(l),
                    None => None,
                }
            };
            let here = if row_idx < colors.len() {
                assert(tints[row_idx as int] == colors[row_idx as int]@);
                Some(&colors[row_idx])
            } else {
                None
            };
            let ghost was = lines_cells(lines@);
            let line = draw_side(
                side,
                row.line_type,
                is_left,
                width,
                scroll_x,
                row_idx,
                selection,
                here,
                search_hl,
            );
            lines.push(line);
            proof {
                assert(cells_of(line@) == whole[1 + k]);
                assert(lines_cells(lines@) =~= was.push(cells_of(line@)));
                assert(whole.take(1 + k + 1) =~= whole.take(1 + k).push(whole[1 + k]));
                assert(before + whole.take(1 + k + 1) =~= (before + whole.take(1 + k)).push(
                    whole[1 + k],
                ));
            }
            k += 1;
        }
        proof {
            assert(whole.take(1 + k) =~= whole);
            assert(hunks.take(h + 1).drop_last() =~= hunks.take(h as int));
            assert(hunks.take(h + 1).last() == view);
        }
        h += 1;
    }
    assert(hunks.take(h as int) =~= hunks);
    lines
}

/// Draws the rows of a file, side by side: for each side one line of runs
/// per display row. A file without hunks shows a notice on the left and an
/// empty line on the right.
pub fn build_side_by_side_lines(
    file: &FileDiff,
    left_width: usize,
    right_width: usize,
    scroll_x: u16,
    selection: &Option<SelectionInfo>,
    left_colors: &Vec<Vec<Rgb>>,
    right_colors: &Vec<Vec<Rgb>>,
    search_hl: &Option<SearchHighlightInfo>,
) -> (sides: (Vec<Vec<StyledRun>>, Vec<Vec<StyledRun>>))
    ensures
        file.hunks@.len() > 0 ==> lines_cells(sides.0@) == drawn(
            file.deep_view().hunks,
            true,
            left_width,
            scroll_x as usize,
            *selection,
            left_colors.deep_view(),
            *search_hl,
        ),
        file.hunks@.len() > 0 ==> lines_cells(sides.1@) == drawn(
            file.deep_view().hunks,
            false,
            right_width,
            scroll_x as usize,
            *selection,
            right_colors.deep_view(),
            *search_hl,
        ),
        file.hunks@.len() == 0 ==> lines_cells(sides.0@) == seq![
            text_cells("  No changes"@, tinted(Tint::DarkGray)),
        ],
        file.hunks@.len() == 0 ==> lines_cells(sides.1@) == seq![
            Seq::<(char, CellStyle)>::empty(),
        ],
{
    if file.hunks.len() == 0 {
        let notice = StyledRun {
            text: "  No changes".to_owned(),
            style: CellStyle { fg: Some(Tint::DarkGray), bg: None, bold: false },
        };
        let mut line: Vec<StyledRun> = Vec::new();
        line.push(notice);
        let mut left: Vec<Vec<StyledRun>> = Vec::new();
        left.push(line);
        let mut right: Vec<Vec<StyledRun>> = Vec::new();
        right.push(Vec::new());
        proof {
            lemma_cells_of_one(notice);
            assert(line@ =~= seq![notice]);
            assert(lines_cells(left@) =~= seq![text_cells("  No changes"@, tinted(Tint::DarkGray))]);
            assert(lines_cells(right@) =~= seq![Seq::<(char, CellStyle)>::empty()]);
        }
        (left, right)
    } else {
        let scroll = scroll_x as usize;
        let left = draw_lines(file, true, left_width, scroll, selection, left_colors, search_hl);
        let right = draw_lines(file, false, right_width, scroll, selection, right_colors, search_hl);
        (left, right)
    }
}

/// The runs as plain values: the text and the style of each.
pub open spec fn run_views(runs: Seq<StyledRun>) -> Seq<(Seq<char>, CellStyle)> {
    Seq::new(runs.len(), |i: int| (runs[i].text@, runs[i].style))
}

/// A text between two blanks.
pub open spec fn framed(text: Seq<char>) -> Seq<char> {
    seq![' '] + text + seq![' ']
}

/// The name of a mode on the status line.
pub open spec fn mode_label(mode: DiffViewMode) -> Seq<char> {
    match mode {
        DiffViewMode::Scroll => "SCROLL"@,
        DiffViewMode::Normal => "NORMAL"@,
        DiffViewMode::Visual => "VISUAL"@,
        DiffViewMode::VisualLine => "V-LINE"@,
    }
}

/// The background of a mode's name on the status line.
pub open spec fn mode_tint(mode: DiffViewMode) -> Tint {
    match mode {
        DiffViewMode::Scroll => Tint::DarkGray,
        DiffViewMode::Normal => Tint::Cyan,
        DiffViewMode::Visual => Tint::Magenta,
        DiffViewMode::VisualLine => Tint::Magenta,
    }
}

/// The name of the cursor's side on the status line: none in Scroll mode.
pub open spec fn side_label(state: DiffViewState) -> Seq<char> {
    match state.mode {
        DiffViewMode::Scroll => Seq::empty(),
        _ => match state.cursor_pos.side {
            DiffSide::Left => "LEFT"@,
            DiffSide::Right => "RIGHT"@,
        },
    }
}

/// The style of the labels on the status line: white on dark gray.
pub open spec fn label_style() -> CellStyle {
    CellStyle { fg: Some(Tint::White), bg: Some(Tint::Rgb(50, 50, 50)), bold: false }
}

/// One framed label, where the text is not empty.
pub open spec fn label_run(text: Seq<char>, style: CellStyle) -> Seq<(Seq<char>, CellStyle)> {
    if text.len() > 0 {
        seq![(framed(text), style)]
    } else {
        Seq::empty()
    }
}

/// The left part of the status line: the mode, the file type and the side.
pub open spec fn status_left(state: DiffViewState, path: Seq<char>) -> Seq<(Seq<char>, CellStyle)> {
    seq![
        (
            framed(mode_label(state.mode)),
            CellStyle { fg: Some(Tint::Black), bg: Some(mode_tint(state.mode)), bold: false },
        ),
    ] + label_run(filetype_of(path), label_style()) + label_run(side_label(state), label_style())
}

/// The number of characters in a sequence of runs.
pub open spec fn runs_width(runs: Seq<(Seq<char>, CellStyle)>) -> int
    decreases runs.len(),
{
    if runs.len() == 0 {
        0
    } else {
        runs_width(runs.drop_last()) + runs.last().0.len()
    }
}

/// The status line of the diff pane in `width` columns: on the left the
/// mode, the file type and the side; on the right the keys typed so far in
/// yellow and the position; between them as many blanks as fill the line.
pub open spec fn statusline(
    state: DiffViewState,
    path: Seq<char>,
    total_lines: u16,
    width: usize,
) -> Seq<(Seq<char>, CellStyle)> {
    let left = status_left(state, path);
    let dark = Tint::Rgb(30, 30, 30);
    let typed = label_run(
        pending_text(state),
        CellStyle { fg: Some(Tint::Yellow), bg: Some(dark), bold: false },
    );
    let position = framed(position_text(state, total_lines));
    let gap = width - (runs_width(left) + runs_width(typed) + position.len());
    left + seq![(blanks(gap), CellStyle { fg: None, bg: Some(dark), bold: false })] + typed
        + seq![(position, label_style())]
}

/// Puts a text between two blanks.
pub fn frame_text(text: &str) -> (r: String)
    ensures
        r@ == framed(text@),
{
    let mut r = String::new();
    r.push(' ');
    push_text(&mut r, text);
    r.push(' ');
    assert(r@ =~= framed(text@));
    r
}

/// The width of runs behind one another is the sum of their widths.
pub proof fn lemma_runs_width_joined(a: Seq<(Seq<char>, CellStyle)>, b: Seq<(Seq<char>, CellStyle)>)
    ensures
        runs_width(a + b) == runs_width(a) + runs_width(b),
    decreases b.len(),
{
    if b.len() == 0 {
        assert(a + b =~= a);
    } else {
        lemma_runs_width_joined(a, b.drop_last());
        assert((a + b).drop_last() =~= a + b.drop_last());
        assert((a + b).last() == b.last());
    }
}

/// No width is negative.
pub proof fn lemma_runs_width_nonnegative(runs: Seq<(Seq<char>, CellStyle)>)
    ensures
        runs_width(runs) >= 0,
    decreases runs.len(),
{
    if runs.len() > 0 {
        lemma_runs_width_nonnegative(runs.drop_last());
    }
}

/// The width of a label: that of its framed text, or nothing.
pub proof fn lemma_label_width(text: Seq<char>, style: CellStyle)
    ensures
        runs_width(label_run(text, style)) == if text.len() > 0 {
            text.len() + 2
        } else {
            0
        },
{
    let label = label_run(text, style);
    if text.len() > 0 {
        assert(label.drop_last() =~= Seq::<(Seq<char>, CellStyle)>::empty());
        assert(runs_width(label.drop_last()) == 0);
        assert(label.last().0 == framed(text));
    }
}

/// Appends a framed label, where the text is not empty, and counts its
/// width.
fn push_label(runs: &mut Vec<StyledRun>, used: &mut usize, text: &str, style: CellStyle)
    ensures
        run_views(final(runs)@) == run_views(old(runs)@) + label_run(text@, style),
        *final(used) == capped_index(*old(used) + runs_width(label_run(text@, style))),
{
    proof {
        lemma_label_width(text@, style);
    }
    if char_count(text) > 0 {
        let run = StyledRun { text: frame_text(text), style };
        *used = used.saturating_add(char_count(run.text.as_str()));
        runs.push(run);
        assert(run_views(runs@) =~= run_views(old(runs)@) + label_run(text@, style));
    } else {
        assert(run_views(runs@) =~= run_views(old(runs)@) + label_run(text@, style));
    }
}

/// Draws the left part of the status line and counts its width.
fn draw_status_left(state: &DiffViewState, file_path: &str) -> (r: (Vec<StyledRun>, usize))
    ensures
        run_views(r.0@) == status_left(*state, file_path@),
        r.1 == capped_index(runs_width(status_left(*state, file_path@))),
{
    let label = CellStyle { fg: Some(Tint::White), bg: Some(Tint::Rgb(50, 50, 50)), bold: false };
    let (name, tint) = match state.mode {
        DiffViewMode::Scroll => ("SCROLL", Tint::DarkGray),
        DiffViewMode::Normal => ("NORMAL", Tint::Cyan),
        DiffViewMode::Visual => ("VISUAL", Tint::Magenta),
        DiffViewMode::VisualLine => ("V-LINE", Tint::Magenta),
    };
    let side = match state.mode {
        DiffViewMode::Scroll => "",
        _ => match state.cursor_pos.side {
            DiffSide::Left => "LEFT",
            DiffSide::Right => "RIGHT",
        },
    };
    let style = CellStyle { fg: Some(Tint::Black), bg: Some(tint), bold: false };
    proof {
        reveal_strlit("SCROLL");
        reveal_strlit("NORMAL");
        reveal_strlit("VISUAL");
        reveal_strlit("V-LINE");
        reveal_strlit("");
        reveal_strlit("LEFT");
        reveal_strlit("RIGHT");
        assert(name@ == mode_label(state.mode));
        assert(side@ =~= side_label(*state));
        assert(name@.len() > 0);
        lemma_label_width(name@, style);
        lemma_runs_width_joined(
            label_run(name@, style),
            label_run(filetype_of(file_path@), label_style()),
        );
        lemma_runs_width_joined(
            label_run(name@, style) + label_run(filetype_of(file_path@), label_style()),
            label_run(side@, label_style()),
        );
    }
    let mut runs: Vec<StyledRun> = Vec::new();
    let mut used: usize = 0;
    assert(run_views(runs@) =~= Seq::<(Seq<char>, CellStyle)>::empty());
    push_label(&mut runs, &mut used, name, style);
    let file_type = filetype(file_path);
    push_label(&mut runs, &mut used, file_type.as_str(), label);
    push_label(&mut runs, &mut used, side, label);
    proof {
        let first = label_run(name@, style);
        let second = label_run(filetype_of(file_path@), label_style());
        let third = label_run(side@, label_style());
        lemma_label_width(filetype_of(file_path@), label_style());
        lemma_label_width(side@, label_style());
        assert(run_views(runs@) =~= first + second + third);
        assert(first + second + third =~= status_left(*state, file_path@));
        assert(runs_width(first + second + third) == runs_width(first) + runs_width(second)
            + runs_width(third));
    }
    (runs, used)
}

/// Draws the status line of the diff pane.
pub fn draw_statusline(state: &DiffViewState, file_path: &str, total_lines: u16, width: usize) -> (runs:
    Vec<StyledRun>)
    ensures
        run_views(runs@) == statusline(*state, file_path@, total_lines, width),
{
    let label = CellStyle { fg: Some(Tint::White), bg: Some(Tint::Rgb(50, 50, 50)), bold: false };
    let dark = Tint::Rgb(30, 30, 30);
    let yellow = CellStyle { fg: Some(Tint::Yellow), bg: Some(dark), bold: false };
    let (left, left_width) = draw_status_left(state, file_path);
    let mut typed: Vec<StyledRun> = Vec::new();
    let mut used: usize = left_width;
    assert(run_views(typed@) =~= Seq::<(Seq<char>, CellStyle)>::empty());
    push_label(&mut typed, &mut used, showcmd(state).as_str(), yellow);
    assert(run_views(typed@) =~= label_run(pending_text(*state), yellow));
    let position = frame_text(position_info(state, total_lines).as_str());
    used = used.saturating_add(char_count(position.as_str()));
    let mut fill = String::new();
    push_blanks(&mut fill, width.saturating_sub(used));
    let ghost exact = runs_width(run_views(left@)) + runs_width(run_views(typed@)) + position@.len();
    proof {
        lemma_label_width(pending_text(*state), yellow);
        lemma_runs_width_nonnegative(run_views(left@));
    }
    assert(used == capped_index(exact));
    assert(fill@ =~= blanks(width - exact));
    let mut runs = left;
    runs.push(StyledRun { text: fill, style: CellStyle { fg: None, bg: Some(dark), bold: false } });
    let ghost start = runs@;
    let ghost middle = typed@;
    runs.append(&mut typed);
    assert(runs@ == start + middle);
    runs.push(StyledRun { text: position, style: label });
    assert(run_views(runs@) =~= statusline(*state, file_path@, total_lines, width));
    runs
}

} // verus!
