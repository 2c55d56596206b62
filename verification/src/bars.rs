//! The header line and the status line of the two views, as styled runs.

use crate::app::{App, ViewMode};
use crate::github::state::GitHubState;
use crate::rows::{bare_run, run_views, text_run, tinted, tinted_run, unstyled};
use crate::text::{decimal, push_decimal, push_text};
use crate::view::{CellStyle, StyledRun, Tint};
use vstd::prelude::*;

verus! {

/// The style of the tab of a view: black on white and bold for the view
/// that is shown, dark gray for the other.
pub open spec fn tab_style(shown: bool) -> CellStyle {
    if shown {
        CellStyle { fg: Some(Tint::Black), bg: Some(Tint::White), bold: true }
    } else {
        tinted(Tint::DarkGray)
    }
}

/// The tabs of the two views.
pub open spec fn view_tabs(active: ViewMode) -> Seq<(Seq<char>, CellStyle)> {
    seq![
        ("  "@, unstyled()),
        (" 1:Git "@, tab_style(active == ViewMode::Git)),
        (" "@, unstyled()),
        (" 2:GitHub "@, tab_style(active == ViewMode::GitHub)),
    ]
}

/// The name of the tool at the start of a header.
pub open spec fn tool_name() -> (Seq<char>, CellStyle) {
    (" vig "@, CellStyle { fg: Some(Tint::Black), bg: Some(Tint::Cyan), bold: true })
}

/// The hint at the end of a header.
pub open spec fn help_hint() -> Seq<(Seq<char>, CellStyle)> {
    seq![("  "@, unstyled()), ("? help"@, tinted(Tint::DarkGray))]
}

/// Black text on a background.
pub open spec fn black_on(bg: Tint) -> CellStyle {
    CellStyle { fg: Some(Tint::Black), bg: Some(bg), bold: false }
}

/// The header of the Git view: the tool's name, the branch, the
/// reference the diff is taken against (`HEAD` where none is set), the
/// tabs and the hint.
pub open spec fn git_header(branch: Seq<char>, base: Option<Seq<char>>, active: ViewMode) -> Seq<
    (Seq<char>, CellStyle),
> {
    seq![
        tool_name(),
        (" "@, unstyled()),
        (" "@ + branch + " "@, black_on(Tint::Magenta)),
        (" "@, unstyled()),
        (
            " vs "@ + (match base {
                Some(b) => b,
                None => "HEAD"@,
            }) + " "@,
            black_on(Tint::Yellow),
        ),
    ] + view_tabs(active) + help_hint()
}

/// The header of the GitHub view.
pub open spec fn github_header(active: ViewMode) -> Seq<(Seq<char>, CellStyle)> {
    seq![tool_name(), (" "@, unstyled()), (" GitHub "@, black_on(Tint::Rgb(36, 41, 47)))]
        + view_tabs(active) + help_hint()
}

fn is_git(mode: ViewMode) -> (r: bool)
    ensures
        r == (mode == ViewMode::Git),
{
    match mode {
        ViewMode::Git => true,
        ViewMode::GitHub => false,
    }
}

fn tab(shown: bool) -> (style: CellStyle)
    ensures
        style == tab_style(shown),
{
    if shown {
        CellStyle { fg: Some(Tint::Black), bg: Some(Tint::White), bold: true }
    } else {
        CellStyle { fg: Some(Tint::DarkGray), bg: None, bold: false }
    }
}

/// Appends the tabs and the hint.
fn push_tabs_and_hint(runs: &mut Vec<StyledRun>, active: ViewMode)
    ensures
        run_views(final(runs)@) == run_views(old(runs)@) + view_tabs(active) + help_hint(),
{
    runs.push(bare_run("  "));
    runs.push(text_run(" 1:Git ", tab(is_git(active))));
    runs.push(bare_run(" "));
    runs.push(text_run(" 2:GitHub ", tab(!is_git(active))));
    runs.push(bare_run("  "));
    runs.push(tinted_run("? help", Tint::DarkGray));
    assert(run_views(runs@) =~= run_views(old(runs)@) + view_tabs(active) + help_hint());
}

/// Draws the header of the Git view.
pub fn build_header(app: &App) -> (runs: Vec<StyledRun>)
    ensures
        run_views(runs@) == git_header(
            app.files.diff_state.branch_name@,
            match app.diff_base_ref {
                Some(b) => Some(b@),
                None => None,
            },
            app.view_mode,
        ),
{
    let mut branch = " ".to_owned();
    push_text(&mut branch, app.files.diff_state.branch_name.as_str());
    push_text(&mut branch, " ");
    let mut base = " vs ".to_owned();
    match &app.diff_base_ref {
        Some(b) => push_text(&mut base, b.as_str()),
        None => push_text(&mut base, "HEAD"),
    }
    push_text(&mut base, " ");
    let mut runs: Vec<StyledRun> = Vec::new();
    runs.push(text_run(" vig ", CellStyle { fg: Some(Tint::Black), bg: Some(Tint::Cyan), bold: true }));
    runs.push(bare_run(" "));
    runs.push(
        text_run(
            branch.as_str(),
            CellStyle { fg: Some(Tint::Black), bg: Some(Tint::Magenta), bold: false },
        ),
    );
    runs.push(bare_run(" "));
    runs.push(
        text_run(base.as_str(), CellStyle { fg: Some(Tint::Black), bg: Some(Tint::Yellow), bold: false }),
    );
    push_tabs_and_hint(&mut runs, app.view_mode);
    assert(run_views(runs@) =~= git_header(
        app.files.diff_state.branch_name@,
        match app.diff_base_ref {
            Some(b) => Some(b@),
            None => None,
        },
        app.view_mode,
    ));
    runs
}

/// Draws the header of the GitHub view.
pub fn build_gh_header(active: ViewMode) -> (runs: Vec<StyledRun>)
    ensures
        run_views(runs@) == github_header(active),
{
    let mut runs: Vec<StyledRun> = Vec::new();
    runs.push(text_run(" vig ", CellStyle { fg: Some(Tint::Black), bg: Some(Tint::Cyan), bold: true }));
    runs.push(bare_run(" "));
    runs.push(
        text_run(
            " GitHub ",
            CellStyle { fg: Some(Tint::Black), bg: Some(Tint::Rgb(36, 41, 47)), bold: false },
        ),
    );
    push_tabs_and_hint(&mut runs, active);
    assert(run_views(runs@) =~= github_header(active));
    runs
}

/// A count and what is counted, with an `s` unless the count is one.
pub open spec fn counted_noun(n: nat, noun: Seq<char>) -> Seq<char> {
    decimal(n) + " "@ + noun + if n == 1 {
        Seq::<char>::empty()
    } else {
        "s"@
    }
}

/// Appends a count and what is counted.
fn push_counted(out: &mut String, n: usize, noun: &str)
    ensures
        final(out)@ == old(out)@ + counted_noun(n as nat, noun@),
{
    push_decimal(out, n as u64);
    push_text(out, " ");
    push_text(out, noun);
    if n != 1 {
        push_text(out, "s");
    }
    assert(out@ =~= old(out)@ + counted_noun(n as nat, noun@));
}

/// The status line of the Git view: the search prompt with a block as
/// its cursor while a query is typed; otherwise the status message in
/// yellow; otherwise a note on a clean working tree, or the number of
/// files with the lines added and deleted.
pub open spec fn git_status(
    prompt: Option<Seq<char>>,
    message: Option<Seq<char>>,
    files: nat,
    additions: nat,
    deletions: nat,
) -> Seq<(Seq<char>, CellStyle)> {
    match prompt {
        Some(input) => seq![(" /"@ + input + "█"@, tinted(Tint::White))],
        None => match message {
            Some(m) => seq![(" "@ + m, tinted(Tint::Yellow))],
            None => if files == 0 {
                seq![(" Working tree clean"@, tinted(Tint::Green))]
            } else {
                seq![
                    (" "@ + counted_noun(files, "file"@), tinted(Tint::White)),
                    ("  "@, unstyled()),
                    (seq!['+'] + decimal(additions), tinted(Tint::Green)),
                    (" "@, unstyled()),
                    (seq!['-'] + decimal(deletions), tinted(Tint::Red)),
                ]
            },
        },
    }
}

/// A sign and a number behind it, in a colour.
fn signed_run(sign: char, n: usize, fg: Tint) -> (r: StyledRun)
    ensures
        (r.text@, r.style) == (seq![sign] + decimal(n as nat), tinted(fg)),
{
    let mut text = String::new();
    text.push(sign);
    push_decimal(&mut text, n as u64);
    assert(text@ =~= seq![sign] + decimal(n as nat));
    StyledRun { text, style: CellStyle { fg: Some(fg), bg: None, bold: false } }
}

/// Draws the status line of the Git view.
pub fn build_status_bar(app: &App) -> (runs: Vec<StyledRun>)
    ensures
        run_views(runs@) == git_status(
            if app.search.active {
                Some(app.search.input@)
            } else {
                None
            },
            match app.status_message {
                Some(m) => Some(m@),
                None => None,
            },
            app.files.diff_state.files@.len(),
            app.files.diff_state.stats.additions as nat,
            app.files.diff_state.stats.deletions as nat,
        ),
{
    let mut runs: Vec<StyledRun> = Vec::new();
    if app.search.active {
        let mut text = " /".to_owned();
        push_text(&mut text, app.search.input.as_str());
        push_text(&mut text, "█");
        runs.push(tinted_run(text.as_str(), Tint::White));
    } else {
        match &app.status_message {
            Some(message) => {
                let mut text = " ".to_owned();
                push_text(&mut text, message.as_str());
                runs.push(tinted_run(text.as_str(), Tint::Yellow));
            },
            None => {
                let files = app.files.diff_state.files.len();
                if files == 0 {
                    runs.push(tinted_run(" Working tree clean", Tint::Green));
                } else {
                    let mut text = " ".to_owned();
                    push_counted(&mut text, files, "file");
                    runs.push(tinted_run(text.as_str(), Tint::White));
                    runs.push(bare_run("  "));
                    runs.push(signed_run('+', app.files.diff_state.stats.additions, Tint::Green));
                    runs.push(bare_run(" "));
                    runs.push(signed_run('-', app.files.diff_state.stats.deletions, Tint::Red));
                }
            },
        }
    }
    assert(run_views(runs@) =~= git_status(
        if app.search.active {
            Some(app.search.input@)
        } else {
            None
        },
        match app.status_message {
            Some(m) => Some(m@),
            None => None,
        },
        app.files.diff_state.files@.len(),
        app.files.diff_state.stats.additions as nat,
        app.files.diff_state.stats.deletions as nat,
    ));
    runs
}

/// The status line of the GitHub view: the error in red; otherwise a
/// note while a list is loading, or the numbers of issues and pull requests.
pub open spec fn github_status(error: Option<Seq<char>>, loading: bool, issues: nat, prs: nat) -> Seq<
    (Seq<char>, CellStyle),
> {
    match error {
        Some(e) => seq![(" "@ + e, tinted(Tint::Red))],
        None => if loading {
            seq![(" Loading..."@, tinted(Tint::DarkGray))]
        } else {
            seq![
                (" "@ + counted_noun(issues, "issue"@), tinted(Tint::White)),
                ("  "@, unstyled()),
                (counted_noun(prs, "PR"@), tinted(Tint::White)),
            ]
        },
    }
}

/// Draws the status line of the GitHub view.
pub fn build_gh_status_bar(github: &GitHubState) -> (runs: Vec<StyledRun>)
    ensures
        run_views(runs@) == github_status(
            match github.gh_error {
                Some(e) => Some(e@),
                None => None,
            },
            github.issues_loading || github.prs_loading,
            github.issues@.len(),
            github.prs@.len(),
        ),
{
    let mut runs: Vec<StyledRun> = Vec::new();
    match &github.gh_error {
        Some(error) => {
            let mut text = " ".to_owned();
            push_text(&mut text, error.as_str());
            runs.push(tinted_run(text.as_str(), Tint::Red));
        },
        None => {
            if github.issues_loading || github.prs_loading {
                runs.push(tinted_run(" Loading...", Tint::DarkGray));
            } else {
                let mut issues = " ".to_owned();
                push_counted(&mut issues, github.issues.len(), "issue");
                let mut prs = String::new();
                push_counted(&mut prs, github.prs.len(), "PR");
                assert(prs@ =~= counted_noun(github.prs@.len(), "PR"@));
                runs.push(tinted_run(issues.as_str(), Tint::White));
                runs.push(bare_run("  "));
                runs.push(tinted_run(prs.as_str(), Tint::White));
            }
        },
    }
    assert(run_views(runs@) =~= github_status(
        match github.gh_error {
            Some(e) => Some(e@),
            None => None,
        },
        github.issues_loading || github.prs_loading,
        github.issues@.len(),
        github.prs@.len(),
    ));
    runs
}

} // verus!
