//! What the detail pane of the GitHub panel shows, as lines of styled
//! runs: the header with its badges, the body, the checks, the reviews and
//! the comments.

use crate::dialog::{lines_of, text_lines};
use crate::github::detail::{
    badge_fg, badge_text_tint, check_keys, check_name_parts, day_of, format_date,
    format_duration, label_tint, label_to_color, meaningful_positions, meaningful_reviews,
    parse_check_name, run_time, sorted_checks,
};
use crate::github::state::{GhDetailContent, GhDetailKind};
use crate::github::types::{
    GhAuthor, GhComment, GhIssueDetail, GhIssueListItem, GhLabel, GhPrDetail, GhPrListItem,
    GhReview, GhStatusCheck,
};
use crate::order::is_stable_order;
use crate::rows::{
    bare_run, frame_text, framed, run_views, tinted, tinted_run, unstyled,
};
use crate::text::{decimal, push_decimal, push_range, push_text, same_text};
use crate::view::{capped_index, CellStyle, StyledRun, Tint};
use vstd::prelude::*;

verus! {

/// The mark and the colour of a check: by its conclusion where it has
/// one that is known, otherwise by its status.
pub open spec fn check_mark(conclusion: Option<Seq<char>>, status: Seq<char>) -> (Seq<char>, Tint) {
    if conclusion == Some("SUCCESS"@) {
        ("✓"@, Tint::Green)
    } else if conclusion == Some("FAILURE"@) {
        ("✗"@, Tint::Red)
    } else if conclusion == Some("NEUTRAL"@) || conclusion == Some("SKIPPED"@) {
        ("○"@, Tint::DarkGray)
    } else if status == "IN_PROGRESS"@ {
        ("◐"@, Tint::Yellow)
    } else if status == "QUEUED"@ || status == "WAITING"@ {
        ("◯"@, Tint::DarkGray)
    } else {
        ("?"@, Tint::DarkGray)
    }
}

/// The text of a text that may be absent.
pub open spec fn text_of(text: Option<String>) -> Option<Seq<char>> {
    match text {
        Some(t) => Some(t@),
        None => None,
    }
}

/// Picks the mark and the colour of a check.
pub fn check_icon(check: &GhStatusCheck) -> (r: (&'static str, Tint))
    ensures
        (r.0@, r.1) == check_mark(text_of(check.conclusion), check.status@),
{
    let known = match &check.conclusion {
        Some(c) => {
            if same_text(c.as_str(), "SUCCESS") {
                Some(("✓", Tint::Green))
            } else if same_text(c.as_str(), "FAILURE") {
                Some(("✗", Tint::Red))
            } else if same_text(c.as_str(), "NEUTRAL") || same_text(c.as_str(), "SKIPPED") {
                Some(("○", Tint::DarkGray))
            } else {
                None
            }
        },
        None => None,
    };
    match known {
        Some(r) => r,
        None => {
            if same_text(check.status.as_str(), "IN_PROGRESS") {
                ("◐", Tint::Yellow)
            } else if same_text(check.status.as_str(), "QUEUED") || same_text(
                check.status.as_str(),
                "WAITING",
            ) {
                ("◯", Tint::DarkGray)
            } else {
                ("?", Tint::DarkGray)
            }
        },
    }
}

/// The mark and the colour of a review, by its state.
pub open spec fn review_mark(state: Seq<char>) -> (Seq<char>, Tint) {
    if state == "APPROVED"@ {
        ("✓"@, Tint::Green)
    } else if state == "CHANGES_REQUESTED"@ {
        ("✗"@, Tint::Red)
    } else if state == "COMMENTED"@ {
        ("💬"@, Tint::DarkGray)
    } else if state == "DISMISSED"@ {
        ("⊘"@, Tint::DarkGray)
    } else {
        ("?"@, Tint::White)
    }
}

/// Picks the mark and the colour of a review.
pub fn review_icon(state: &str) -> (r: (&'static str, Tint))
    ensures
        (r.0@, r.1) == review_mark(state@),
{
    if same_text(state, "APPROVED") {
        ("✓", Tint::Green)
    } else if same_text(state, "CHANGES_REQUESTED") {
        ("✗", Tint::Red)
    } else if same_text(state, "COMMENTED") {
        ("💬", Tint::DarkGray)
    } else if same_text(state, "DISMISSED") {
        ("⊘", Tint::DarkGray)
    } else {
        ("?", Tint::White)
    }
}

/// A badge: the text between two blanks on a background, in black or
/// white, whichever reads better.
pub open spec fn badge_of(text: Seq<char>, bg: Tint) -> (Seq<char>, CellStyle) {
    (framed(text), CellStyle { fg: Some(badge_text_tint(bg)), bg: Some(bg), bold: false })
}

/// Makes a badge.
pub fn badge(text: &str, bg: Tint) -> (run: StyledRun)
    ensures
        (run.text@, run.style) == badge_of(text@, bg),
{
    StyledRun {
        text: frame_text(text),
        style: CellStyle { fg: Some(badge_fg(bg)), bg: Some(bg), bold: false },
    }
}

/// The background of the badge of a state: green for open, red for
/// closed, purple for merged, gray for anything else.
pub open spec fn state_tint(state: Seq<char>) -> Tint {
    if state == "OPEN"@ {
        Tint::Rgb(35, 134, 54)
    } else if state == "CLOSED"@ {
        Tint::Rgb(218, 54, 51)
    } else if state == "MERGED"@ {
        Tint::Rgb(130, 80, 160)
    } else {
        Tint::Rgb(110, 119, 129)
    }
}

/// Makes the badge of a state.
pub fn state_badge(state: &str) -> (run: StyledRun)
    ensures
        (run.text@, run.style) == badge_of(state@, state_tint(state@)),
{
    let bg = if same_text(state, "OPEN") {
        Tint::Rgb(35, 134, 54)
    } else if same_text(state, "CLOSED") {
        Tint::Rgb(218, 54, 51)
    } else if same_text(state, "MERGED") {
        Tint::Rgb(130, 80, 160)
    } else {
        Tint::Rgb(110, 119, 129)
    };
    badge(state, bg)
}

/// The badge of a review decision: none for a decision that is not known.
pub open spec fn decision_badge_of(decision: Seq<char>) -> Option<(Seq<char>, CellStyle)> {
    if decision == "APPROVED"@ {
        Some(badge_of("✓ APPROVED"@, Tint::Rgb(35, 134, 54)))
    } else if decision == "CHANGES_REQUESTED"@ {
        Some(badge_of("✗ CHANGES REQUESTED"@, Tint::Rgb(218, 54, 51)))
    } else if decision == "REVIEW_REQUIRED"@ {
        Some(badge_of("◯ REVIEW REQUIRED"@, Tint::Rgb(187, 128, 9)))
    } else {
        None
    }
}

/// Makes the badge of a review decision.
pub fn decision_badge(decision: &str) -> (r: Option<StyledRun>)
    ensures
        match r {
            Some(run) => Some((run.text@, run.style)) == decision_badge_of(decision@),
            None => decision_badge_of(decision@) is None,
        },
{
    if same_text(decision, "APPROVED") {
        Some(badge("✓ APPROVED", Tint::Rgb(35, 134, 54)))
    } else if same_text(decision, "CHANGES_REQUESTED") {
        Some(badge("✗ CHANGES REQUESTED", Tint::Rgb(218, 54, 51)))
    } else if same_text(decision, "REVIEW_REQUIRED") {
        Some(badge("◯ REVIEW REQUIRED", Tint::Rgb(187, 128, 9)))
    } else {
        None
    }
}

/// The style of a label: its own colour behind black or white text; black
/// text where the colour is not given by its parts.
pub open spec fn label_style_of(color: Seq<char>) -> CellStyle {
    let bg = label_tint(color);
    CellStyle {
        fg: Some(
            if bg is Rgb {
                badge_text_tint(bg)
            } else {
                Tint::Black
            },
        ),
        bg: Some(bg),
        bold: false,
    }
}

/// The runs of the first `n` labels: before each a blank, then its name
/// between two blanks in the label's style.
pub open spec fn label_runs(labels: Seq<GhLabel>, n: int) -> Seq<(Seq<char>, CellStyle)>
    decreases n,
{
    if n <= 0 {
        Seq::empty()
    } else {
        label_runs(labels, n - 1) + seq![
            (" "@, unstyled()),
            (framed(labels[n - 1].name@), label_style_of(labels[n - 1].color@)),
        ]
    }
}

/// Appends the runs of the labels.
pub fn push_labels(runs: &mut Vec<StyledRun>, labels: &Vec<GhLabel>)
    ensures
        run_views(final(runs)@) == run_views(old(runs)@) + label_runs(
            labels@,
            labels@.len() as int,
        ),
{
    let mut i: usize = 0;
    assert(run_views(runs@) =~= run_views(old(runs)@) + label_runs(labels@, 0));
    while i < labels.len()
        invariant
            i <= labels.len(),
            run_views(runs@) == run_views(old(runs)@) + label_runs(labels@, i as int),
        decreases labels.len() - i,
    {
        let bg = label_to_color(labels[i].color.as_str());
        let fg = match bg {
            Tint::Rgb(_, _, _) => badge_fg(bg),
            _ => Tint::Black,
        };
        let ghost before = run_views(runs@);
        let blank = StyledRun {
            text: " ".to_owned(),
            style: CellStyle { fg: None, bg: None, bold: false },
        };
        let named = StyledRun {
            text: frame_text(labels[i].name.as_str()),
            style: CellStyle { fg: Some(fg), bg: Some(bg), bold: false },
        };
        runs.push(blank);
        runs.push(named);
        assert(run_views(runs@) =~= before + seq![
            (blank.text@, blank.style),
            (named.text@, named.style),
        ]);
        i += 1;
    }
}

/// The name shown for an author: `unknown` where there is none.
pub open spec fn author_name(author: Option<GhAuthor>) -> Seq<char> {
    match author {
        Some(a) => a.login@,
        None => "unknown"@,
    }
}

/// Picks the name shown for an author.
pub fn author_text(author: &Option<GhAuthor>) -> (r: &str)
    ensures
        r@ == author_name(*author),
{
    match author {
        Some(a) => a.login.as_str(),
        None => "unknown",
    }
}

/// One line of the detail pane: its runs, and whether the whole line is
/// drawn as selected.
#[derive(Debug, PartialEq, Eq)]
pub struct SheetLine {
    pub runs: Vec<StyledRun>,
    pub selected: bool,
}

/// The lines as plain values.
pub open spec fn line_views(lines: Seq<SheetLine>) -> Seq<(Seq<(Seq<char>, CellStyle)>, bool)> {
    Seq::new(lines.len(), |i: int| (run_views(lines[i].runs@), lines[i].selected))
}

/// A line that is not selected.
pub open spec fn plain_line(runs: Seq<(Seq<char>, CellStyle)>) -> (Seq<(Seq<char>, CellStyle)>, bool) {
    (runs, false)
}

/// The title line of an issue or a pull request: its number and its
/// title, in bold yellow.
pub open spec fn title_line(number: u64, title: Seq<char>) -> (Seq<(Seq<char>, CellStyle)>, bool) {
    plain_line(
        seq![
            ("  "@, unstyled()),
            (
                seq!['#'] + decimal(number as nat) + seq![' '] + title,
                CellStyle { fg: Some(Tint::Yellow), bg: None, bold: true },
            ),
        ],
    )
}

/// Draws the title line.
fn draw_title(number: u64, title: &str) -> (line: SheetLine)
    ensures
        (run_views(line.runs@), line.selected) == title_line(number, title@),
{
    let mut text = String::new();
    text.push('#');
    push_decimal(&mut text, number);
    text.push(' ');
    push_text(&mut text, title);
    let lead = StyledRun {
        text: "  ".to_owned(),
        style: CellStyle { fg: None, bg: None, bold: false },
    };
    let named = StyledRun {
        text,
        style: CellStyle { fg: Some(Tint::Yellow), bg: None, bold: true },
    };
    let mut runs: Vec<StyledRun> = Vec::new();
    runs.push(lead);
    runs.push(named);
    proof {
        assert(named.text@ =~= seq!['#'] + decimal(number as nat) + seq![' '] + title@);
        assert(run_views(runs@) =~= title_line(number, title@).0);
    }
    SheetLine { runs, selected: false }
}

/// The badges that issues and pull requests share: the author, the day
/// of creation and the state, each behind a blank.
pub open spec fn common_badges(author: Option<GhAuthor>, created_at: Seq<char>, state: Seq<char>) -> Seq<
    (Seq<char>, CellStyle),
> {
    seq![
        (" "@, unstyled()),
        badge_of(author_name(author), Tint::Rgb(31, 111, 139)),
        (" "@, unstyled()),
        badge_of(day_of(created_at), Tint::Rgb(68, 71, 78)),
        (" "@, unstyled()),
        badge_of(state, state_tint(state)),
    ]
}

/// Draws the badges that issues and pull requests share.
fn draw_common_badges(author: &Option<GhAuthor>, created_at: &str, state: &str) -> (runs: Vec<
    StyledRun,
>)
    ensures
        run_views(runs@) == common_badges(*author, created_at@, state@),
{
    let mut runs: Vec<StyledRun> = Vec::new();
    runs.push(bare_run(" "));
    runs.push(badge(author_text(author), Tint::Rgb(31, 111, 139)));
    runs.push(bare_run(" "));
    runs.push(badge(format_date(created_at).as_str(), Tint::Rgb(68, 71, 78)));
    runs.push(bare_run(" "));
    runs.push(state_badge(state));
    assert(run_views(runs@) =~= common_badges(*author, created_at@, state@));
    runs
}

/// The header of an issue: the title line, then the badges and the labels.
pub open spec fn issue_header(detail: GhIssueDetail) -> Seq<(Seq<(Seq<char>, CellStyle)>, bool)> {
    seq![
        title_line(detail.number, detail.title@),
        plain_line(
            common_badges(detail.author, detail.created_at@, detail.state@) + label_runs(
                detail.labels@,
                detail.labels@.len() as int,
            ),
        ),
    ]
}

/// Draws the header of an issue.
pub fn build_issue_header(detail: &GhIssueDetail) -> (lines: Vec<SheetLine>)
    ensures
        line_views(lines@) == issue_header(*detail),
{
    let mut runs = draw_common_badges(
        &detail.author,
        detail.created_at.as_str(),
        detail.state.as_str(),
    );
    push_labels(&mut runs, &detail.labels);
    let mut lines: Vec<SheetLine> = Vec::new();
    lines.push(draw_title(detail.number, detail.title.as_str()));
    lines.push(SheetLine { runs, selected: false });
    assert(line_views(lines@) =~= issue_header(*detail));
    lines
}

/// The badges of a pull request behind the shared ones: the branch, the
/// lines added and deleted, the files changed, and the review decision
/// where it is known.
pub open spec fn pr_badges(detail: GhPrDetail) -> Seq<(Seq<char>, CellStyle)> {
    seq![
        (" "@, unstyled()),
        badge_of(detail.head_ref_name@, Tint::Rgb(130, 80, 160)),
        (" "@, unstyled()),
        badge_of(seq!['+'] + decimal(detail.additions as nat), Tint::Rgb(35, 134, 54)),
        badge_of(seq!['-'] + decimal(detail.deletions as nat), Tint::Rgb(218, 54, 51)),
        (" "@, unstyled()),
        badge_of(decimal(detail.changed_files as nat) + " files"@, Tint::Rgb(68, 71, 78)),
    ] + match detail.review_decision {
        Some(decision) => match decision_badge_of(decision@) {
            Some(shown) => seq![(" "@, unstyled()), shown],
            None => Seq::empty(),
        },
        None => Seq::empty(),
    }
}

/// A sign and a number behind it.
fn signed(sign: char, n: u64) -> (r: String)
    ensures
        r@ == seq![sign] + decimal(n as nat),
{
    let mut r = String::new();
    r.push(sign);
    push_decimal(&mut r, n);
    assert(r@ =~= seq![sign] + decimal(n as nat));
    r
}

/// Appends the badges of a pull request.
fn push_pr_badges(runs: &mut Vec<StyledRun>, detail: &GhPrDetail)
    ensures
        run_views(final(runs)@) == run_views(old(runs)@) + pr_badges(*detail),
{
    let mut files = String::new();
    push_decimal(&mut files, detail.changed_files);
    push_text(&mut files, " files");
    assert(files@ =~= decimal(detail.changed_files as nat) + " files"@);
    runs.push(bare_run(" "));
    runs.push(badge(detail.head_ref_name.as_str(), Tint::Rgb(130, 80, 160)));
    runs.push(bare_run(" "));
    runs.push(badge(signed('+', detail.additions).as_str(), Tint::Rgb(35, 134, 54)));
    runs.push(badge(signed('-', detail.deletions).as_str(), Tint::Rgb(218, 54, 51)));
    runs.push(bare_run(" "));
    runs.push(badge(files.as_str(), Tint::Rgb(68, 71, 78)));
    match &detail.review_decision {
        Some(decision) => match decision_badge(decision.as_str()) {
            Some(shown) => {
                runs.push(bare_run(" "));
                runs.push(shown);
            },
            None => {},
        },
        None => {},
    }
    assert(run_views(runs@) =~= run_views(old(runs)@) + pr_badges(*detail));
}

/// The header of a pull request: the title line, then the badges and the
/// labels.
pub open spec fn pr_header(detail: GhPrDetail) -> Seq<(Seq<(Seq<char>, CellStyle)>, bool)> {
    seq![
        title_line(detail.number, detail.title@),
        plain_line(
            common_badges(detail.author, detail.created_at@, detail.state@) + pr_badges(detail)
                + label_runs(detail.labels@, detail.labels@.len() as int),
        ),
    ]
}

/// Draws the header of a pull request.
pub fn build_pr_header(detail: &GhPrDetail) -> (lines: Vec<SheetLine>)
    ensures
        line_views(lines@) == pr_header(*detail),
{
    let mut runs = draw_common_badges(
        &detail.author,
        detail.created_at.as_str(),
        detail.state.as_str(),
    );
    push_pr_badges(&mut runs, detail);
    push_labels(&mut runs, &detail.labels);
    let mut lines: Vec<SheetLine> = Vec::new();
    lines.push(draw_title(detail.number, detail.title.as_str()));
    lines.push(SheetLine { runs, selected: false });
    assert(line_views(lines@) =~= pr_header(*detail));
    lines
}

/// The lines of a text, each behind two blanks.
pub open spec fn indented(text: Seq<char>) -> Seq<(Seq<(Seq<char>, CellStyle)>, bool)> {
    Seq::new(
        text_lines(text).len(),
        |i: int| plain_line(seq![("  "@ + text_lines(text)[i], unstyled())]),
    )
}

/// Appends the lines of a text, each behind two blanks.
fn push_indented(lines: &mut Vec<SheetLine>, text: &str)
    ensures
        line_views(final(lines)@) == line_views(old(lines)@) + indented(text@),
{
    let parts = lines_of(text);
    let ghost all = indented(text@);
    let mut i: usize = 0;
    assert(line_views(lines@) =~= line_views(old(lines)@) + all.take(0));
    while i < parts.len()
        invariant
            i <= parts.len(),
            parts.deep_view() == text_lines(text@),
            all == indented(text@),
            line_views(lines@) == line_views(old(lines)@) + all.take(i as int),
        decreases parts.len() - i,
    {
        let mut shown = "  ".to_owned();
        push_range(&mut shown, &parts[i], 0, parts[i].len());
        proof {
            assert(parts[i as int]@.subrange(0, parts[i as int].len() as int) =~= parts[i as int]@);
            assert(parts.deep_view()[i as int] == parts[i as int]@);
        }
        let run = StyledRun { text: shown, style: CellStyle { fg: None, bg: None, bold: false } };
        let mut runs: Vec<StyledRun> = Vec::new();
        runs.push(run);
        let ghost before = line_views(lines@);
        lines.push(SheetLine { runs, selected: false });
        proof {
            assert(run_views(runs@) =~= all[i as int].0);
            assert(line_views(lines@) =~= before.push(all[i as int]));
            assert(all.take(i + 1) =~= all.take(i as int).push(all[i as int]));
        }
        i += 1;
    }
    assert(all.take(i as int) =~= all);
}

/// A notice in dark gray behind two blanks.
pub open spec fn notice(text: Seq<char>) -> Seq<(Seq<(Seq<char>, CellStyle)>, bool)> {
    seq![plain_line(seq![("  "@ + text, tinted(Tint::DarkGray))])]
}

/// Draws a notice.
fn draw_notice(text: &str) -> (lines: Vec<SheetLine>)
    ensures
        line_views(lines@) == notice(text@),
{
    let mut shown = "  ".to_owned();
    push_text(&mut shown, text);
    let run = StyledRun {
        text: shown,
        style: CellStyle { fg: Some(Tint::DarkGray), bg: None, bold: false },
    };
    let mut runs: Vec<StyledRun> = Vec::new();
    runs.push(run);
    let mut lines: Vec<SheetLine> = Vec::new();
    lines.push(SheetLine { runs, selected: false });
    proof {
        assert(run_views(runs@) =~= notice(text@)[0].0);
        assert(line_views(lines@) =~= notice(text@));
    }
    lines
}

/// The lines of a body: a notice where there is none.
pub open spec fn body_lines(body: Seq<char>) -> Seq<(Seq<(Seq<char>, CellStyle)>, bool)> {
    if body.len() == 0 {
        notice("(no description)"@)
    } else {
        indented(body)
    }
}

/// Draws the lines of a body.
pub fn build_body_lines(body: &str) -> (lines: Vec<SheetLine>)
    ensures
        line_views(lines@) == body_lines(body@),
{
    if crate::text::char_count(body) == 0 {
        draw_notice("(no description)")
    } else {
        let mut lines: Vec<SheetLine> = Vec::new();
        assert(line_views(lines@) =~= Seq::<(Seq<(Seq<char>, CellStyle)>, bool)>::empty());
        push_indented(&mut lines, body);
        assert(line_views(lines@) =~= indented(body@));
        lines
    }
}

/// The lines of one entry of a list of reviews or comments: an empty
/// line before every entry but the first, the entry's head, and its text.
pub open spec fn entry_lines(
    head: Seq<(Seq<char>, CellStyle)>,
    body: Seq<char>,
    first: bool,
    selected: bool,
) -> Seq<(Seq<(Seq<char>, CellStyle)>, bool)> {
    (if first {
        Seq::empty()
    } else {
        seq![plain_line(Seq::empty())]
    }) + seq![(head, selected)] + indented(body)
}

/// The lines of the first `n` entries, of which the one at `selected` is
/// drawn as selected.
pub open spec fn entries_upto(
    entries: Seq<(Seq<(Seq<char>, CellStyle)>, Seq<char>)>,
    n: int,
    selected: usize,
) -> Seq<(Seq<(Seq<char>, CellStyle)>, bool)>
    decreases n,
{
    if n <= 0 {
        Seq::empty()
    } else {
        entries_upto(entries, n - 1, selected) + entry_lines(
            entries[n - 1].0,
            entries[n - 1].1,
            n == 1,
            n - 1 == selected,
        )
    }
}

/// The line at which the head of the selected entry stands, as far as a
/// scroll offset can tell it; zero without such an entry.
pub open spec fn selected_offset(
    entries: Seq<(Seq<(Seq<char>, CellStyle)>, Seq<char>)>,
    selected: usize,
) -> u16 {
    if selected < entries.len() {
        capped_index(
            entries_upto(entries, selected as int, selected).len() + if selected > 0 {
                1int
            } else {
                0int
            },
        ) as u16
    } else {
        0
    }
}

/// Appends the lines of one entry.
fn push_entry(lines: &mut Vec<SheetLine>, head: Vec<StyledRun>, body: &str, selected: bool)
    ensures
        line_views(final(lines)@) == line_views(old(lines)@) + entry_lines(
            run_views(head@),
            body@,
            old(lines)@.len() == 0,
            selected,
        ),
{
    let ghost start = line_views(lines@);
    if lines.len() > 0 {
        lines.push(SheetLine { runs: Vec::new(), selected: false });
        assert(run_views(Seq::<StyledRun>::empty()) =~= Seq::<(Seq<char>, CellStyle)>::empty());
    }
    let ghost gap = if old(lines)@.len() == 0 {
        Seq::<(Seq<(Seq<char>, CellStyle)>, bool)>::empty()
    } else {
        seq![plain_line(Seq::empty())]
    };
    assert(line_views(lines@) =~= start + gap);
    lines.push(SheetLine { runs: head, selected });
    assert(line_views(lines@) =~= start + gap + seq![(run_views(head@), selected)]);
    push_indented(lines, body);
    assert(line_views(lines@) =~= start + entry_lines(
        run_views(head@),
        body@,
        old(lines)@.len() == 0,
        selected,
    ));
}

/// The head of a review: its mark, its author in cyan, and its state in
/// the mark's colour.
pub open spec fn review_head(review: GhReview) -> Seq<(Seq<char>, CellStyle)> {
    let mark = review_mark(review.state@);
    seq![
        ("  "@, unstyled()),
        (mark.0, tinted(mark.1)),
        (" "@, unstyled()),
        (author_name(review.author), tinted(Tint::Cyan)),
        ("  "@, unstyled()),
        (review.state@, tinted(mark.1)),
    ]
}

/// The reviews worth showing, in their order.
pub open spec fn shown_reviews(reviews: Seq<GhReview>) -> Seq<GhReview> {
    let positions = meaningful_positions(reviews, reviews.len() as int);
    Seq::new(positions.len(), |k: int| reviews[positions[k]])
}

/// The reviews as entries: head and text.
pub open spec fn review_entries(shown: Seq<GhReview>) -> Seq<(Seq<(Seq<char>, CellStyle)>, Seq<char>)> {
    Seq::new(shown.len(), |k: int| (review_head(shown[k]), shown[k].body@))
}

/// The lines of the reviews of a pull request: a notice where none is
/// worth showing.
pub open spec fn reviews_lines(reviews: Seq<GhReview>, selected: usize) -> Seq<
    (Seq<(Seq<char>, CellStyle)>, bool),
> {
    let entries = review_entries(shown_reviews(reviews));
    if entries.len() == 0 {
        notice("(no reviews)"@)
    } else {
        entries_upto(entries, entries.len() as int, selected)
    }
}

/// Draws the head of a review.
fn draw_review_head(review: &GhReview) -> (runs: Vec<StyledRun>)
    ensures
        run_views(runs@) == review_head(*review),
{
    let mark = review_icon(review.state.as_str());
    let mut runs: Vec<StyledRun> = Vec::new();
    runs.push(bare_run("  "));
    runs.push(tinted_run(mark.0, mark.1));
    runs.push(bare_run(" "));
    runs.push(tinted_run(author_text(&review.author), Tint::Cyan));
    runs.push(bare_run("  "));
    runs.push(tinted_run(review.state.as_str(), mark.1));
    assert(run_views(runs@) =~= review_head(*review));
    runs
}

/// Draws the reviews of a pull request that are worth showing, and tells
/// the line at which the head of the selected one stands.
pub fn build_reviews_lines(reviews: &Vec<GhReview>, selected_idx: usize) -> (r: (Vec<SheetLine>, u16))
    ensures
        line_views(r.0@) == reviews_lines(reviews@, selected_idx),
        r.1 == selected_offset(review_entries(shown_reviews(reviews@)), selected_idx),
{
    let shown = meaningful_reviews(reviews);
    let ghost entries = review_entries(shown_reviews(reviews@));
    assert(entries.len() == shown@.len());
    if shown.len() == 0 {
        return (draw_notice("(no reviews)"), 0);
    }
    let mut lines: Vec<SheetLine> = Vec::new();
    let mut offset: u16 = 0;
    let mut i: usize = 0;
    assert(line_views(lines@) =~= entries_upto(entries, 0, selected_idx));
    while i < shown.len()
        invariant
            i <= shown.len(),
            entries == review_entries(shown_reviews(reviews@)),
            entries.len() == shown@.len(),
            forall|k: int|
                0 <= k < shown@.len() ==> *(#[trigger] shown@[k]) == shown_reviews(reviews@)[k],
            line_views(lines@) == entries_upto(entries, i as int, selected_idx),
            lines@.len() == 0 <==> i == 0,
            offset == if selected_idx < i {
                selected_offset(entries, selected_idx)
            } else {
                0
            },
        decreases shown.len() - i,
    {
        let review = shown[i];
        assert(*review == shown_reviews(reviews@)[i as int]);
        let head = draw_review_head(review);
        if i == selected_idx {
            let at = if lines.len() > 0 {
                lines.len().saturating_add(1)
            } else {
                0
            };
            offset = #[verifier::truncate] (at as u16);
            assert(lines@.len() == line_views(lines@).len());
        }
        let ghost before = line_views(lines@);
        push_entry(&mut lines, head, review.body.as_str(), i == selected_idx);
        assert(lines@.len() == line_views(lines@).len());
        assert(before.len() == 0 <==> i == 0);
        i += 1;
    }
    (lines, offset)
}

/// The head of a comment: its author in cyan and the day it was written.
pub open spec fn comment_head(comment: GhComment) -> Seq<(Seq<char>, CellStyle)> {
    seq![
        ("  "@, unstyled()),
        (author_name(comment.author), tinted(Tint::Cyan)),
        ("  "@ + day_of(comment.created_at@), unstyled()),
    ]
}

/// The comments as entries: head and text.
pub open spec fn comment_entries(comments: Seq<GhComment>) -> Seq<
    (Seq<(Seq<char>, CellStyle)>, Seq<char>),
> {
    Seq::new(comments.len(), |k: int| (comment_head(comments[k]), comments[k].body@))
}

/// The lines of the comments: a notice where there is none.
pub open spec fn comments_lines(comments: Seq<GhComment>, selected: usize) -> Seq<
    (Seq<(Seq<char>, CellStyle)>, bool),
> {
    let entries = comment_entries(comments);
    if entries.len() == 0 {
        notice("(no comments)"@)
    } else {
        entries_upto(entries, entries.len() as int, selected)
    }
}

/// Draws the head of a comment.
fn draw_comment_head(comment: &GhComment) -> (runs: Vec<StyledRun>)
    ensures
        run_views(runs@) == comment_head(*comment),
{
    let mut day = "  ".to_owned();
    push_text(&mut day, format_date(comment.created_at.as_str()).as_str());
    let mut runs: Vec<StyledRun> = Vec::new();
    runs.push(bare_run("  "));
    runs.push(tinted_run(author_text(&comment.author), Tint::Cyan));
    runs.push(bare_run(day.as_str()));
    assert(run_views(runs@) =~= comment_head(*comment));
    runs
}

/// Draws the comments, and tells the line at which the head of the
/// selected one stands.
pub fn build_comments_lines(comments: &Vec<GhComment>, selected_idx: usize) -> (r: (
    Vec<SheetLine>,
    u16,
))
    ensures
        line_views(r.0@) == comments_lines(comments@, selected_idx),
        r.1 == selected_offset(comment_entries(comments@), selected_idx),
{
    let ghost entries = comment_entries(comments@);
    if comments.len() == 0 {
        return (draw_notice("(no comments)"), 0);
    }
    let mut lines: Vec<SheetLine> = Vec::new();
    let mut offset: u16 = 0;
    let mut i: usize = 0;
    assert(line_views(lines@) =~= entries_upto(entries, 0, selected_idx));
    while i < comments.len()
        invariant
            i <= comments.len(),
            entries == comment_entries(comments@),
            line_views(lines@) == entries_upto(entries, i as int, selected_idx),
            lines@.len() == 0 <==> i == 0,
            offset == if selected_idx < i {
                selected_offset(entries, selected_idx)
            } else {
                0
            },
        decreases comments.len() - i,
    {
        let comment = &comments[i];
        let head = draw_comment_head(comment);
        if i == selected_idx {
            let at = if lines.len() > 0 {
                lines.len().saturating_add(1)
            } else {
                0
            };
            offset = #[verifier::truncate] (at as u16);
            assert(lines@.len() == line_views(lines@).len());
        }
        let ghost before = line_views(lines@);
        push_entry(&mut lines, head, comment.body.as_str(), i == selected_idx);
        assert(lines@.len() == line_views(lines@).len());
        assert(before.len() == 0 <==> i == 0);
        i += 1;
    }
    (lines, offset)
}

/// One row of the table of checks.
#[derive(Debug, PartialEq, Eq)]
pub struct CheckRow {
    pub mark: String,
    pub tint: Tint,
    pub workflow: String,
    pub job: String,
    pub params: String,
    pub duration: String,
}

/// A row of the table of checks as plain values.
pub struct CheckRowView {
    pub mark: Seq<char>,
    pub tint: Tint,
    pub workflow: Seq<char>,
    pub job: Seq<char>,
    pub params: Seq<char>,
    pub duration: Seq<char>,
}

impl DeepView for CheckRow {
    type V = CheckRowView;

    open spec fn deep_view(&self) -> CheckRowView {
        CheckRowView {
            mark: self.mark@,
            tint: self.tint,
            workflow: self.workflow@,
            job: self.job@,
            params: self.params@,
            duration: self.duration@,
        }
    }
}

/// The row of a check: its mark, its workflow (or nothing), the job and
/// the parameters that its name holds, and the time it ran.
pub open spec fn check_row(check: GhStatusCheck) -> CheckRowView {
    let mark = check_mark(text_of(check.conclusion), check.status@);
    let parts = check_name_parts(check.name@);
    CheckRowView {
        mark: mark.0,
        tint: mark.1,
        workflow: match check.workflow_name {
            Some(w) => w@,
            None => Seq::empty(),
        },
        job: parts.0,
        params: parts.1,
        duration: run_time(text_of(check.started_at), text_of(check.completed_at)),
    }
}

/// Makes the row of a check.
pub fn build_check_row(check: &GhStatusCheck) -> (row: CheckRow)
    ensures
        row.deep_view() == check_row(*check),
{
    let mark = check_icon(check);
    let parts = parse_check_name(check.name.as_str());
    let started = match &check.started_at {
        Some(t) => Some(t.as_str()),
        None => None,
    };
    let completed = match &check.completed_at {
        Some(t) => Some(t.as_str()),
        None => None,
    };
    CheckRow {
        mark: mark.0.to_owned(),
        tint: mark.1,
        workflow: match &check.workflow_name {
            Some(w) => w.clone(),
            None => String::new(),
        },
        job: parts.0,
        params: parts.1,
        duration: format_duration(started, completed),
    }
}

/// The rows of the table of checks, in the order in which the checks are
/// shown: by workflow, then by name; checks that agree in both keep their
/// order. There is none for a pull request without checks.
pub fn build_check_rows(detail: &GhPrDetail) -> (rows: Vec<CheckRow>)
    ensures
        match detail.status_check_rollup {
            Some(checks) => exists|order: Seq<usize>|
                {
                    &&& is_stable_order(check_keys(checks@), order)
                    &&& rows@.len() == order.len()
                    &&& forall|k: int|
                        0 <= k < rows@.len() ==> (#[trigger] rows@[k]).deep_view() == check_row(
                            checks@[order[k] as int],
                        )
                },
            None => rows@.len() == 0,
        },
{
    let sorted = sorted_checks(detail);
    let mut rows: Vec<CheckRow> = Vec::new();
    let mut i: usize = 0;
    while i < sorted.len()
        invariant
            i <= sorted.len(),
            rows@.len() == i,
            forall|k: int| 0 <= k < i ==> (#[trigger] rows@[k]).deep_view() == check_row(*sorted@[k]),
        decreases sorted.len() - i,
    {
        rows.push(build_check_row(sorted[i]));
        i += 1;
    }
    proof {
        if detail.status_check_rollup is Some {
            let checks = detail.status_check_rollup->0;
            let order = choose|order: Seq<usize>|
                {
                    &&& is_stable_order(check_keys(checks@), order)
                    &&& sorted@.len() == order.len()
                    &&& forall|k: int|
                        0 <= k < sorted@.len() ==> *(#[trigger] sorted@[k]) == checks@[order[k] as int]
                };
            assert forall|k: int| 0 <= k < rows@.len() implies (#[trigger] rows@[k]).deep_view()
                == check_row(checks@[order[k] as int]) by {
                assert(*sorted@[k] == checks@[order[k] as int]);
            }
        }
    }
    rows
}

/// A title with a count behind it in brackets.
pub open spec fn counted(name: Seq<char>, n: nat) -> Seq<char> {
    name + " ("@ + decimal(n) + ")"@
}

/// Writes a title with a count.
pub fn counted_title(name: &str, n: usize) -> (r: String)
    ensures
        r@ == counted(name@, n as nat),
{
    let mut r = name.to_owned();
    push_text(&mut r, " (");
    push_decimal(&mut r, n as u64);
    push_text(&mut r, ")");
    r
}

/// The title of a pane of the detail view: between two blanks, in bold
/// cyan while the pane is the active one of the focused detail view,
/// otherwise in dark gray.
pub open spec fn pane_title_of(label: Seq<char>, active: bool, focused: bool) -> (Seq<char>, CellStyle) {
    (
        framed(label),
        if active && focused {
            CellStyle { fg: Some(Tint::Cyan), bg: None, bold: true }
        } else {
            tinted(Tint::DarkGray)
        },
    )
}

/// Draws the title of a pane.
pub fn pane_title(label: &str, active: bool, focused: bool) -> (run: StyledRun)
    ensures
        (run.text@, run.style) == pane_title_of(label@, active, focused),
{
    StyledRun {
        text: frame_text(label),
        style: if active && focused {
            CellStyle { fg: Some(Tint::Cyan), bg: None, bold: true }
        } else {
            CellStyle { fg: Some(Tint::DarkGray), bg: None, bold: false }
        },
    }
}

/// What the detail pane says where it shows no issue and no pull
/// request: a hint, what is loading, or the error, in red.
pub open spec fn placeholder_of(content: GhDetailContent) -> Option<(Seq<char>, CellStyle)> {
    match content {
        GhDetailContent::Empty => Some(
            ("  Select an issue or PR to view details"@, tinted(Tint::DarkGray)),
        ),
        GhDetailContent::Loading { kind, number } => Some(
            (
                "  Loading "@ + (match kind {
                    GhDetailKind::Issue => "issue"@,
                    GhDetailKind::Pr => "PR"@,
                }) + " #"@ + decimal(number as nat) + "..."@,
                tinted(Tint::DarkGray),
            ),
        ),
        GhDetailContent::Error(e) => Some(("  Error: "@ + e@, tinted(Tint::Red))),
        _ => None,
    }
}

/// Writes what the detail pane says in place of a detail.
pub fn placeholder(content: &GhDetailContent) -> (r: Option<StyledRun>)
    ensures
        match r {
            Some(run) => Some((run.text@, run.style)) == placeholder_of(*content),
            None => placeholder_of(*content) is None,
        },
{
    match content {
        GhDetailContent::Empty => Some(
            tinted_run("  Select an issue or PR to view details", Tint::DarkGray),
        ),
        GhDetailContent::Loading { kind, number } => {
            let mut text = "  Loading ".to_owned();
            push_text(
                &mut text,
                match kind {
                    GhDetailKind::Issue => "issue",
                    GhDetailKind::Pr => "PR",
                },
            );
            push_text(&mut text, " #");
            push_decimal(&mut text, *number);
            push_text(&mut text, "...");
            Some(tinted_run(text.as_str(), Tint::DarkGray))
        },
        GhDetailContent::Error(e) => {
            let mut text = "  Error: ".to_owned();
            push_text(&mut text, e.as_str());
            Some(tinted_run(text.as_str(), Tint::Red))
        },
        _ => None,
    }
}

/// The number of reviews worth showing.
pub fn count_meaningful(reviews: &Vec<GhReview>) -> (n: usize)
    ensures
        n == shown_reviews(reviews@).len(),
{
    meaningful_reviews(reviews).len()
}

/// The start of a list entry: a mark in its colour, the number in yellow,
/// and the title.
pub open spec fn item_start(mark: Seq<char>, tint: Tint, number: u64, title: Seq<char>) -> Seq<
    (Seq<char>, CellStyle),
> {
    seq![
        (" "@, unstyled()),
        (mark, tinted(tint)),
        (" "@, unstyled()),
        (seq!['#'] + decimal(number as nat), tinted(Tint::Yellow)),
        (" "@, unstyled()),
        (title, unstyled()),
    ]
}

/// Draws the start of a list entry.
fn draw_item_start(mark: &str, tint: Tint, number: u64, title: &str) -> (runs: Vec<StyledRun>)
    ensures
        run_views(runs@) == item_start(mark@, tint, number, title@),
{
    let mut runs: Vec<StyledRun> = Vec::new();
    runs.push(bare_run(" "));
    runs.push(tinted_run(mark, tint));
    runs.push(bare_run(" "));
    runs.push(tinted_run(signed('#', number).as_str(), Tint::Yellow));
    runs.push(bare_run(" "));
    runs.push(bare_run(title));
    assert(run_views(runs@) =~= item_start(mark@, tint, number, title@));
    runs
}

/// The entry of an issue in the list: a green dot while it is open, a red
/// tick otherwise.
pub open spec fn issue_item(issue: GhIssueListItem) -> Seq<(Seq<char>, CellStyle)> {
    if issue.state@ == "OPEN"@ {
        item_start("●"@, Tint::Green, issue.number, issue.title@)
    } else {
        item_start("✓"@, Tint::Red, issue.number, issue.title@)
    }
}

/// Draws the entry of an issue.
pub fn build_issue_item(issue: &GhIssueListItem) -> (runs: Vec<StyledRun>)
    ensures
        run_views(runs@) == issue_item(*issue),
{
    if same_text(issue.state.as_str(), "OPEN") {
        draw_item_start("●", Tint::Green, issue.number, issue.title.as_str())
    } else {
        draw_item_start("✓", Tint::Red, issue.number, issue.title.as_str())
    }
}

/// The mark of a pull request in the list, by its state.
pub open spec fn pr_mark(state: Seq<char>) -> (Seq<char>, Tint) {
    if state == "MERGED"@ {
        ("⊕"@, Tint::Magenta)
    } else if state == "CLOSED"@ {
        ("✓"@, Tint::Red)
    } else {
        ("●"@, Tint::Green)
    }
}

/// The mark of a review decision in the list: none for a decision that
/// is neither an approval nor a request for changes.
pub open spec fn decision_mark(decision: Option<Seq<char>>) -> Seq<(Seq<char>, CellStyle)> {
    if decision == Some("APPROVED"@) {
        seq![(" "@, unstyled()), ("✓"@, tinted(Tint::Green))]
    } else if decision == Some("CHANGES_REQUESTED"@) {
        seq![(" "@, unstyled()), ("✗"@, tinted(Tint::Red))]
    } else {
        Seq::empty()
    }
}

/// The entry of a pull request in the list: its mark, number and title,
/// the mark of the review decision, and a note on a draft.
pub open spec fn pr_item(pr: GhPrListItem) -> Seq<(Seq<char>, CellStyle)> {
    let mark = pr_mark(pr.state@);
    item_start(mark.0, mark.1, pr.number, pr.title@) + decision_mark(text_of(pr.review_decision))
        + if pr.is_draft {
        seq![(" "@, unstyled()), ("[draft]"@, tinted(Tint::DarkGray))]
    } else {
        Seq::empty()
    }
}

/// Draws the entry of a pull request.
pub fn build_pr_item(pr: &GhPrListItem) -> (runs: Vec<StyledRun>)
    ensures
        run_views(runs@) == pr_item(*pr),
{
    let mark = if same_text(pr.state.as_str(), "MERGED") {
        ("⊕", Tint::Magenta)
    } else if same_text(pr.state.as_str(), "CLOSED") {
        ("✓", Tint::Red)
    } else {
        ("●", Tint::Green)
    };
    let mut runs = draw_item_start(mark.0, mark.1, pr.number, pr.title.as_str());
    let ghost start = run_views(runs@);
    match &pr.review_decision {
        Some(decision) => {
            if same_text(decision.as_str(), "APPROVED") {
                runs.push(bare_run(" "));
                runs.push(tinted_run("✓", Tint::Green));
            } else if same_text(decision.as_str(), "CHANGES_REQUESTED") {
                runs.push(bare_run(" "));
                runs.push(tinted_run("✗", Tint::Red));
            }
        },
        None => {},
    }
    assert(run_views(runs@) =~= start + decision_mark(text_of(pr.review_decision)));
    if pr.is_draft {
        runs.push(bare_run(" "));
        runs.push(tinted_run("[draft]", Tint::DarkGray));
    }
    assert(run_views(runs@) =~= pr_item(*pr));
    runs
}

} // verus!
