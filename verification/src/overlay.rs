//! The two overlays: the menu of branch actions and the error dialog.
//! Where they stand on the screen, and their lines.

use crate::app::{BranchAction, BranchActionMenuState, ErrorDialogState};
use crate::dialog::{wrap_text, wrapped};
use crate::rows::{blanks, lemma_runs_width_nonnegative, push_blanks, run_views, runs_width};
use crate::text::{char_count, push_text};
use crate::view::{capped_index, CellStyle, StyledRun, Tint};
use vstd::prelude::*;

verus! {

/// Where an overlay stands: its left column, its top row, its width and
/// its height.
#[derive(Debug, Clone, Copy, PartialEq, Eq, Structural)]
pub struct Placement {
    pub x: u16,
    pub y: u16,
    pub width: u16,
    pub height: u16,
}

/// The smaller of a wanted size and what a side of the screen leaves
/// when two cells stay free at either end.
pub open spec fn fitted(wanted: int, side: u16) -> u16 {
    let room = if side >= 4 {
        side - 4
    } else {
        0
    };
    if wanted <= room {
        wanted as u16
    } else {
        room as u16
    }
}

/// An overlay of the wanted size, as far as the screen has room for it,
/// in the middle of the screen.
pub open spec fn centered(screen_width: u16, screen_height: u16, width: int, height: int) -> Placement {
    let w = fitted(width, screen_width);
    let h = fitted(height, screen_height);
    Placement {
        x: ((screen_width - w) / 2) as u16,
        y: ((screen_height - h) / 2) as u16,
        width: w,
        height: h,
    }
}

fn fit(wanted: usize, side: u16) -> (r: u16)
    ensures
        r == fitted(wanted as int, side),
        r <= side,
{
    let room: u16 = if side >= 4 {
        side - 4
    } else {
        0
    };
    let room_wide: usize = room.into();
    if wanted <= room_wide {
        #[verifier::truncate]
        (wanted as u16)
    } else {
        room
    }
}

/// Places an overlay of the wanted size in the middle of the screen.
pub fn place_overlay(screen_width: u16, screen_height: u16, width: usize, height: usize) -> (p:
    Placement)
    ensures
        p == centered(screen_width, screen_height, width as int, height as int),
{
    let w = fit(width, screen_width);
    let h = fit(height, screen_height);
    Placement { x: (screen_width - w) / 2, y: (screen_height - h) / 2, width: w, height: h }
}

/// The background of the overlays.
pub open spec fn overlay_bg() -> Tint {
    Tint::Rgb(30, 30, 30)
}

/// A line filled with blanks on the overlay's background to `width`
/// characters; a line that is as long or longer stays as it is.
pub open spec fn padded_line(runs: Seq<(Seq<char>, CellStyle)>, width: usize) -> Seq<
    (Seq<char>, CellStyle),
> {
    if runs_width(runs) < width {
        runs.push(
            (
                blanks(width - runs_width(runs)),
                CellStyle { fg: None, bg: Some(overlay_bg()), bold: false },
            ),
        )
    } else {
        runs
    }
}

/// Fills a line with blanks on the overlay's background.
pub fn pad_line(runs: Vec<StyledRun>, width: usize) -> (padded: Vec<StyledRun>)
    ensures
        run_views(padded@) == padded_line(run_views(runs@), width),
{
    let ghost views = run_views(runs@);
    let mut used: usize = 0;
    let mut i: usize = 0;
    assert(views.take(0) =~= Seq::<(Seq<char>, CellStyle)>::empty());
    while i < runs.len()
        invariant
            i <= runs.len(),
            views == run_views(runs@),
            used == capped_index(runs_width(views.take(i as int))),
        decreases runs.len() - i,
    {
        proof {
            lemma_runs_width_nonnegative(views.take(i as int));
            assert(views.take(i + 1).drop_last() =~= views.take(i as int));
            assert(views.take(i + 1).last() == views[i as int]);
        }
        used = used.saturating_add(char_count(runs[i].text.as_str()));
        i += 1;
    }
    proof {
        assert(views.take(i as int) =~= views);
        lemma_runs_width_nonnegative(views);
    }
    let mut padded = runs;
    if used < width {
        let mut fill = String::new();
        push_blanks(&mut fill, width - used);
        let run = StyledRun {
            text: fill,
            style: CellStyle { fg: None, bg: Some(Tint::Rgb(30, 30, 30)), bold: false },
        };
        padded.push(run);
        assert(fill@ =~= blanks(width - runs_width(views)));
        assert(run_views(padded@) =~= views.push((run.text@, run.style)));
    }
    padded
}

/// A style on the overlay's background.
pub open spec fn on_overlay(fg: Option<Tint>, bold: bool) -> CellStyle {
    CellStyle { fg, bg: Some(overlay_bg()), bold }
}

/// An empty line of an overlay.
pub open spec fn blank_line(width: usize) -> Seq<(Seq<char>, CellStyle)> {
    padded_line(seq![(Seq::<char>::empty(), on_overlay(None, false))], width)
}

/// One text on the overlay's background, filled to the width.
pub open spec fn text_line(text: Seq<char>, fg: Option<Tint>, bold: bool, width: usize) -> Seq<
    (Seq<char>, CellStyle),
> {
    padded_line(seq![(text, on_overlay(fg, bold))], width)
}

fn draw_text_line(lead: &str, text: &str, fg: Option<Tint>, bold: bool, width: usize) -> (runs: Vec<
    StyledRun,
>)
    ensures
        run_views(runs@) == text_line(lead@ + text@, fg, bold, width),
{
    let mut shown = lead.to_owned();
    push_text(&mut shown, text);
    let run = StyledRun {
        text: shown,
        style: CellStyle { fg, bg: Some(Tint::Rgb(30, 30, 30)), bold },
    };
    let mut runs: Vec<StyledRun> = Vec::new();
    runs.push(run);
    assert(run_views(runs@) =~= seq![(lead@ + text@, on_overlay(fg, bold))]);
    pad_line(runs, width)
}

/// The line of one action of the menu: its key in bold cyan and its
/// label; the selected action is bold on dark gray.
pub open spec fn action_line(action: BranchAction, selected: bool, width: usize) -> Seq<
    (Seq<char>, CellStyle),
> {
    let bg = if selected {
        Tint::DarkGray
    } else {
        overlay_bg()
    };
    padded_line(
        seq![
            (
                seq![' ', action.key_of(), ' ', ' '],
                CellStyle { fg: Some(Tint::Cyan), bg: Some(bg), bold: true },
            ),
            (action.label_of(), CellStyle { fg: None, bg: Some(bg), bold: selected }),
        ],
        width,
    )
}

/// The lines of the menu of branch actions: the branch's name in bold
/// (green for the checked-out branch), a rule, and the actions.
pub open spec fn menu_lines(
    branch_name: Seq<char>,
    is_head: bool,
    selected: usize,
    width: usize,
) -> Seq<Seq<(Seq<char>, CellStyle)>> {
    seq![
        text_line(
            " "@ + branch_name,
            if is_head {
                Some(Tint::Green)
            } else {
                None
            },
            true,
            width,
        ),
        text_line(" ─────────────────────"@, Some(Tint::DarkGray), false, width),
    ] + Seq::new(3, |i: int| action_line(BranchAction::all()[i], i == selected, width))
}

/// The lines as plain values.
pub open spec fn rows_views(lines: Seq<Vec<StyledRun>>) -> Seq<Seq<(Seq<char>, CellStyle)>> {
    Seq::new(lines.len(), |i: int| run_views(lines[i]@))
}

fn draw_action_line(action: BranchAction, selected: bool, width: usize) -> (runs: Vec<StyledRun>)
    ensures
        run_views(runs@) == action_line(action, selected, width),
{
    let bg = if selected {
        Tint::DarkGray
    } else {
        Tint::Rgb(30, 30, 30)
    };
    let mut key = String::new();
    key.push(' ');
    key.push(action.key());
    key.push(' ');
    key.push(' ');
    assert(key@ =~= seq![' ', action.key_of(), ' ', ' ']);
    let mut runs: Vec<StyledRun> = Vec::new();
    runs.push(
        StyledRun { text: key, style: CellStyle { fg: Some(Tint::Cyan), bg: Some(bg), bold: true } },
    );
    runs.push(
        StyledRun {
            text: action.label().to_owned(),
            style: CellStyle { fg: None, bg: Some(bg), bold: selected },
        },
    );
    assert(run_views(runs@) =~= seq![
        (
            seq![' ', action.key_of(), ' ', ' '],
            CellStyle { fg: Some(Tint::Cyan), bg: Some(bg), bold: true },
        ),
        (action.label_of(), CellStyle { fg: None, bg: Some(bg), bold: selected }),
    ]);
    pad_line(runs, width)
}

/// Draws the lines of the menu of branch actions.
pub fn build_menu_lines(menu: &BranchActionMenuState, width: usize) -> (lines: Vec<Vec<StyledRun>>)
    ensures
        rows_views(lines@) == menu_lines(menu.branch_name@, menu.is_head, menu.selected_idx, width),
{
    let mut lines: Vec<Vec<StyledRun>> = Vec::new();
    lines.push(
        draw_text_line(
            " ",
            menu.branch_name.as_str(),
            if menu.is_head {
                Some(Tint::Green)
            } else {
                None
            },
            true,
            width,
        ),
    );
    lines.push(draw_text_line(" ─────────────────────", "", Some(Tint::DarkGray), false, width));
    lines.push(draw_action_line(BranchAction::Switch, menu.selected_idx == 0, width));
    lines.push(draw_action_line(BranchAction::Delete, menu.selected_idx == 1, width));
    lines.push(draw_action_line(BranchAction::DiffBase, menu.selected_idx == 2, width));
    proof {
        reveal_strlit("");
        assert(" ─────────────────────"@ + ""@ =~= " ─────────────────────"@);
        assert(rows_views(lines@) =~= menu_lines(
            menu.branch_name@,
            menu.is_head,
            menu.selected_idx,
            width,
        ));
    }
    lines
}

/// The width that is left inside an overlay's frame.
pub open spec fn inner_size(outer: u16) -> usize {
    if outer >= 2 {
        (outer - 2) as usize
    } else {
        0
    }
}

fn inside(outer: u16) -> (r: usize)
    ensures
        r == inner_size(outer),
{
    if outer >= 2 {
        (outer - 2).into()
    } else {
        0
    }
}

/// Where the menu of branch actions stands: twenty-five columns wide and
/// as high as its five lines and its frame, as far as the screen has room.
pub open spec fn menu_place(screen_width: u16, screen_height: u16) -> Placement {
    centered(screen_width, screen_height, 25, 7)
}

/// Places the menu of branch actions and draws its lines.
pub fn build_menu(menu: &BranchActionMenuState, screen_width: u16, screen_height: u16) -> (r: (
    Placement,
    Vec<Vec<StyledRun>>,
))
    ensures
        r.0 == menu_place(screen_width, screen_height),
        rows_views(r.1@) == menu_lines(
            menu.branch_name@,
            menu.is_head,
            menu.selected_idx,
            inner_size(r.0.width),
        ),
{
    let place = place_overlay(screen_width, screen_height, 25, 7);
    let lines = build_menu_lines(menu, inside(place.width));
    (place, lines)
}

/// The lines of the error dialog before it is filled to its height: the
/// title in bold red, the message wrapped to the width that two columns
/// of margin leave, and a hint, with an empty line around the message.
pub open spec fn dialog_text(title: Seq<char>, message: Seq<char>, width: usize) -> Seq<
    Seq<(Seq<char>, CellStyle)>,
> {
    let text_width = if width >= 2 {
        (width - 2) as usize
    } else {
        0
    };
    let pieces = wrapped(message, text_width);
    seq![text_line(" "@ + title, Some(Tint::Red), true, width), blank_line(width)] + Seq::new(
        pieces.len(),
        |i: int| text_line(" "@ + pieces[i], Some(Tint::White), false, width),
    ) + seq![
        blank_line(width),
        text_line(" Press any key to dismiss"@, Some(Tint::DarkGray), false, width),
    ]
}

/// The lines of the error dialog: its text, and empty lines behind it
/// as far as `height` asks for more.
pub open spec fn dialog_lines(title: Seq<char>, message: Seq<char>, width: usize, height: usize) -> Seq<
    Seq<(Seq<char>, CellStyle)>,
> {
    let text = dialog_text(title, message, width);
    text + Seq::new(
        if height > text.len() {
            (height - text.len()) as nat
        } else {
            0
        },
        |i: int| blank_line(width),
    )
}

fn draw_blank_line(width: usize) -> (runs: Vec<StyledRun>)
    ensures
        run_views(runs@) == blank_line(width),
{
    let run = StyledRun {
        text: String::new(),
        style: CellStyle { fg: None, bg: Some(Tint::Rgb(30, 30, 30)), bold: false },
    };
    let mut runs: Vec<StyledRun> = Vec::new();
    runs.push(run);
    assert(run_views(runs@) =~= seq![(Seq::<char>::empty(), on_overlay(None, false))]);
    pad_line(runs, width)
}

/// Draws the lines of the error dialog.
pub fn build_dialog_lines(dialog: &ErrorDialogState, width: usize, height: usize) -> (lines: Vec<
    Vec<StyledRun>,
>)
    ensures
        rows_views(lines@) == dialog_lines(dialog.title@, dialog.message@, width, height),
{
    let text_width = if width >= 2 {
        width - 2
    } else {
        0
    };
    let message = wrap_text(dialog.message.as_str(), text_width);
    let ghost pieces = wrapped(dialog.message@, text_width);
    let ghost text = dialog_text(dialog.title@, dialog.message@, width);
    let mut lines: Vec<Vec<StyledRun>> = Vec::new();
    lines.push(draw_text_line(" ", dialog.title.as_str(), Some(Tint::Red), true, width));
    lines.push(draw_blank_line(width));
    let mut i: usize = 0;
    assert(rows_views(lines@) =~= text.take(2));
    while i < message.len()
        invariant
            i <= message.len(),
            message.deep_view() == pieces,
            pieces == wrapped(dialog.message@, text_width),
            text_width == if width >= 2 {
                (width - 2) as usize
            } else {
                0
            },
            text == dialog_text(dialog.title@, dialog.message@, width),
            lines@.len() == 2 + i,
            rows_views(lines@) == text.take(2 + i),
        decreases message.len() - i,
    {
        let ghost before = rows_views(lines@);
        assert(message.deep_view()[i as int] == message[i as int]@);
        let line = draw_text_line(" ", message[i].as_str(), Some(Tint::White), false, width);
        lines.push(line);
        proof {
            assert(run_views(line@) == text[2 + i]);
            assert(rows_views(lines@) =~= before.push(run_views(line@)));
            assert(text.take(2 + i + 1) =~= text.take(2 + i).push(text[2 + i]));
        }
        i += 1;
    }
    let ghost before = rows_views(lines@);
    let gap = draw_blank_line(width);
    let hint = draw_text_line(" Press any key to dismiss", "", Some(Tint::DarkGray), false, width);
    lines.push(gap);
    lines.push(hint);
    proof {
        reveal_strlit("");
        assert(" Press any key to dismiss"@ + ""@ =~= " Press any key to dismiss"@);
        assert(rows_views(lines@) =~= before.push(run_views(gap@)).push(run_views(hint@)));
        assert(rows_views(lines@) =~= text);
    }
    let ghost all = dialog_lines(dialog.title@, dialog.message@, width, height);
    while lines.len() < height
        invariant
            all == dialog_lines(dialog.title@, dialog.message@, width, height),
            text == dialog_text(dialog.title@, dialog.message@, width),
            text.len() <= lines@.len(),
            lines@.len() <= all.len(),
            rows_views(lines@) == all.take(lines@.len() as int),
        decreases height - lines.len(),
    {
        let ghost before = rows_views(lines@);
        let ghost n = lines@.len() as int;
        let line = draw_blank_line(width);
        lines.push(line);
        proof {
            assert(all[n] == blank_line(width));
            assert(rows_views(lines@) =~= before.push(run_views(line@)));
            assert(all.take(n + 1) =~= all.take(n).push(all[n]));
        }
    }
    assert(all.take(lines@.len() as int) =~= all);
    lines
}

/// The number of lines that the text of the error dialog takes.
pub open spec fn dialog_text_len(message: Seq<char>, width: usize) -> int {
    dialog_text(Seq::empty(), message, width).len() as int
}

/// Where the error dialog stands: fifty-four columns wide and as high as
/// its text and its frame, as far as the screen has room.
pub open spec fn dialog_place(message: Seq<char>, screen_width: u16, screen_height: u16) -> Placement {
    let width = fitted(54, screen_width);
    centered(
        screen_width,
        screen_height,
        54,
        dialog_text_len(message, inner_size(width)) + 2,
    )
}

/// Places the error dialog and draws its lines, filled to its height.
pub fn build_dialog(dialog: &ErrorDialogState, screen_width: u16, screen_height: u16) -> (r: (
    Placement,
    Vec<Vec<StyledRun>>,
))
    ensures
        r.0 == dialog_place(dialog.message@, screen_width, screen_height),
        rows_views(r.1@) == dialog_lines(
            dialog.title@,
            dialog.message@,
            inner_size(r.0.width),
            inner_size(r.0.height),
        ),
{
    let width = inside(fit(54, screen_width));
    let text_width = if width >= 2 {
        width - 2
    } else {
        0
    };
    let message_lines = wrap_text(dialog.message.as_str(), text_width).len();
    let wanted = message_lines.saturating_add(6);
    let place = place_overlay(screen_width, screen_height, 54, wanted);
    proof {
        let text = dialog_text(Seq::empty(), dialog.message@, width);
        assert(text.len() == message_lines + 4);
        assert(fitted(wanted as int, screen_height) == fitted(message_lines + 6, screen_height));
    }
    let lines = build_dialog_lines(dialog, inside(place.width), inside(place.height));
    (place, lines)
}

/// A line of the help: the key in bold cyan, behind two blanks and filled
/// to twelve columns, and what the key does.
pub open spec fn help_line(key: Seq<char>, what: Seq<char>) -> Seq<(Seq<char>, CellStyle)> {
    seq![
        (
            "  "@ + key + blanks(12 - key.len()),
            CellStyle { fg: Some(Tint::Cyan), bg: None, bold: true },
        ),
        (what, CellStyle { fg: None, bg: None, bold: false }),
    ]
}

/// Draws a line of the help.
pub fn build_help_line(key: &str, what: &str) -> (runs: Vec<StyledRun>)
    ensures
        run_views(runs@) == help_line(key@, what@),
{
    let mut shown = "  ".to_owned();
    push_text(&mut shown, key);
    let width = char_count(key);
    if width < 12 {
        push_blanks(&mut shown, 12 - width);
    } else {
        assert(shown@ =~= "  "@ + key@ + blanks(12 - key@.len()));
    }
    let mut runs: Vec<StyledRun> = Vec::new();
    runs.push(
        StyledRun { text: shown, style: CellStyle { fg: Some(Tint::Cyan), bg: None, bold: true } },
    );
    runs.push(
        StyledRun { text: what.to_owned(), style: CellStyle { fg: None, bg: None, bold: false } },
    );
    assert(run_views(runs@) =~= help_line(key@, what@));
    runs
}

/// Where the help stands: fifty columns wide and as high as its lines and
/// its frame, as far as the screen has room.
pub fn place_help(screen_width: u16, screen_height: u16, lines: usize) -> (p: Placement)
    ensures
        p == centered(screen_width, screen_height, 50, capped_index(lines + 2) as int),
{
    place_overlay(screen_width, screen_height, 50, lines.saturating_add(2))
}

} // verus!
