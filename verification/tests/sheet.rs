use vig::github::sheet::{
    badge, build_body_lines, build_check_row, build_check_rows, build_comments_lines,
    build_issue_header, build_issue_item, build_pr_header, build_pr_item, build_reviews_lines,
    check_icon, count_meaningful, counted_title, decision_badge, pane_title, placeholder,
    review_icon, state_badge, CheckRow, SheetLine,
};
use vig::github::state::{GhDetailContent, GhDetailKind};
use vig::github::types::{
    GhAuthor, GhComment, GhIssueDetail, GhIssueListItem, GhLabel, GhPrDetail, GhPrListItem,
    GhReview, GhStatusCheck,
};
use vig::view::{CellStyle, StyledRun, Tint};

fn run(text: &str, fg: Option<Tint>, bg: Option<Tint>, bold: bool) -> StyledRun {
    StyledRun { text: text.to_string(), style: CellStyle { fg, bg, bold } }
}

fn bare(text: &str) -> StyledRun {
    run(text, None, None, false)
}

fn fg(text: &str, tint: Tint) -> StyledRun {
    run(text, Some(tint), None, false)
}

fn on(text: &str, fg: Tint, bg: Tint) -> StyledRun {
    run(text, Some(fg), Some(bg), false)
}

fn plain(runs: Vec<StyledRun>) -> SheetLine {
    SheetLine { runs, selected: false }
}

fn author(login: &str) -> Option<GhAuthor> {
    Some(GhAuthor { login: login.to_string() })
}

fn check(name: &str, workflow: Option<&str>, status: &str, conclusion: Option<&str>) -> GhStatusCheck {
    GhStatusCheck {
        name: name.to_string(),
        status: status.to_string(),
        conclusion: conclusion.map(str::to_string),
        workflow_name: workflow.map(str::to_string),
        started_at: Some("2024-03-01T10:00:00Z".to_string()),
        completed_at: Some("2024-03-01T10:01:05Z".to_string()),
    }
}

fn review(who: Option<&str>, state: &str, body: &str) -> GhReview {
    GhReview {
        author: who.and_then(author),
        body: body.to_string(),
        state: state.to_string(),
        submitted_at: None,
    }
}

fn comment(who: Option<&str>, body: &str) -> GhComment {
    GhComment {
        author: who.and_then(author),
        body: body.to_string(),
        created_at: "2024-02-03T04:05:06Z".to_string(),
    }
}

fn pull(decision: Option<&str>, checks: Option<Vec<GhStatusCheck>>) -> GhPrDetail {
    GhPrDetail {
        number: 12,
        title: "Fix it".to_string(),
        state: "MERGED".to_string(),
        author: author("ann"),
        body: String::new(),
        comments: Vec::new(),
        reviews: Vec::new(),
        labels: vec![GhLabel { name: "bug".to_string(), color: "ffffff".to_string() }],
        created_at: "2024-01-02T03:04:05Z".to_string(),
        review_decision: decision.map(str::to_string),
        status_check_rollup: checks,
        additions: 10,
        deletions: 2,
        changed_files: 3,
        head_ref_name: "fix".to_string(),
    }
}

#[test]
fn marks_of_checks() {
    let mark = |status: &str, conclusion: Option<&str>| check_icon(&check("c", None, status, conclusion));
    assert_eq!(mark("COMPLETED", Some("SUCCESS")), ("✓", Tint::Green));
    assert_eq!(mark("COMPLETED", Some("FAILURE")), ("✗", Tint::Red));
    assert_eq!(mark("COMPLETED", Some("NEUTRAL")), ("○", Tint::DarkGray));
    assert_eq!(mark("COMPLETED", Some("SKIPPED")), ("○", Tint::DarkGray));
    assert_eq!(mark("IN_PROGRESS", None), ("◐", Tint::Yellow));
    assert_eq!(mark("IN_PROGRESS", Some("")), ("◐", Tint::Yellow));
    assert_eq!(mark("QUEUED", None), ("◯", Tint::DarkGray));
    assert_eq!(mark("WAITING", Some("CANCELLED")), ("◯", Tint::DarkGray));
    assert_eq!(mark("COMPLETED", Some("CANCELLED")), ("?", Tint::DarkGray));
    assert_eq!(mark("IN_PROGRESS", Some("SUCCESS")), ("✓", Tint::Green));
}

#[test]
fn marks_of_reviews() {
    assert_eq!(review_icon("APPROVED"), ("✓", Tint::Green));
    assert_eq!(review_icon("CHANGES_REQUESTED"), ("✗", Tint::Red));
    assert_eq!(review_icon("COMMENTED"), ("💬", Tint::DarkGray));
    assert_eq!(review_icon("DISMISSED"), ("⊘", Tint::DarkGray));
    assert_eq!(review_icon("PENDING"), ("?", Tint::White));
    assert_eq!(review_icon("approved"), ("?", Tint::White));
}

#[test]
fn badges_read_on_their_background() {
    assert_eq!(badge("ann", Tint::Rgb(31, 111, 139)), on(" ann ", Tint::White, Tint::Rgb(31, 111, 139)));
    assert_eq!(badge("x", Tint::Rgb(255, 255, 0)), on(" x ", Tint::Black, Tint::Rgb(255, 255, 0)));
    assert_eq!(badge("", Tint::Red), on("  ", Tint::White, Tint::Red));
    assert_eq!(state_badge("OPEN"), on(" OPEN ", Tint::White, Tint::Rgb(35, 134, 54)));
    assert_eq!(state_badge("CLOSED"), on(" CLOSED ", Tint::White, Tint::Rgb(218, 54, 51)));
    assert_eq!(state_badge("MERGED"), on(" MERGED ", Tint::White, Tint::Rgb(130, 80, 160)));
    assert_eq!(state_badge("DRAFT"), on(" DRAFT ", Tint::White, Tint::Rgb(110, 119, 129)));
    assert_eq!(
        decision_badge("APPROVED"),
        Some(on(" ✓ APPROVED ", Tint::White, Tint::Rgb(35, 134, 54)))
    );
    assert_eq!(
        decision_badge("CHANGES_REQUESTED"),
        Some(on(" ✗ CHANGES REQUESTED ", Tint::White, Tint::Rgb(218, 54, 51)))
    );
    assert_eq!(
        decision_badge("REVIEW_REQUIRED"),
        Some(on(" ◯ REVIEW REQUIRED ", Tint::Black, Tint::Rgb(187, 128, 9)))
    );
    assert_eq!(decision_badge(""), None);
}

#[test]
fn header_of_an_issue() {
    let issue = GhIssueDetail {
        number: 7,
        title: "Crash on start".to_string(),
        state: "OPEN".to_string(),
        author: None,
        body: String::new(),
        comments: Vec::new(),
        labels: vec![
            GhLabel { name: "bug".to_string(), color: "d73a4a".to_string() },
            GhLabel { name: "odd".to_string(), color: "zz".to_string() },
        ],
        created_at: "2024-01-02T03:04:05Z".to_string(),
    };
    let gray = Tint::Rgb(68, 71, 78);
    assert_eq!(
        build_issue_header(&issue),
        vec![
            plain(vec![bare("  "), run("#7 Crash on start", Some(Tint::Yellow), None, true)]),
            plain(vec![
                bare(" "),
                on(" unknown ", Tint::White, Tint::Rgb(31, 111, 139)),
                bare(" "),
                on(" 2024-01-02 ", Tint::White, gray),
                bare(" "),
                on(" OPEN ", Tint::White, Tint::Rgb(35, 134, 54)),
                bare(" "),
                on(" bug ", Tint::White, Tint::Rgb(0xd7, 0x3a, 0x4a)),
                bare(" "),
                on(" odd ", Tint::Black, Tint::White),
            ]),
        ]
    );
}

#[test]
fn header_of_a_pull_request() {
    let lines = build_pr_header(&pull(Some("APPROVED"), None));
    assert_eq!(lines.len(), 2);
    assert_eq!(lines[0], plain(vec![bare("  "), run("#12 Fix it", Some(Tint::Yellow), None, true)]));
    let texts: Vec<&str> = lines[1].runs.iter().map(|r| r.text.as_str()).collect();
    assert_eq!(
        texts,
        vec![
            " ", " ann ", " ", " 2024-01-02 ", " ", " MERGED ", " ", " fix ", " ", " +10 ", " -2 ",
            " ", " 3 files ", " ", " ✓ APPROVED ", " ", " bug ",
        ]
    );
    assert_eq!(lines[1].runs[9], on(" +10 ", Tint::White, Tint::Rgb(35, 134, 54)));
    assert_eq!(lines[1].runs[10], on(" -2 ", Tint::White, Tint::Rgb(218, 54, 51)));
    assert_eq!(lines[1].runs[16], on(" bug ", Tint::Black, Tint::Rgb(255, 255, 255)));
    let undecided = build_pr_header(&pull(Some("UNKNOWN"), None));
    assert_eq!(undecided[1].runs.len(), 15);
    let none = build_pr_header(&pull(None, None));
    assert_eq!(none[1].runs.len(), 15);
}

#[test]
fn lines_of_a_body() {
    assert_eq!(build_body_lines(""), vec![plain(vec![fg("  (no description)", Tint::DarkGray)])]);
    assert_eq!(
        build_body_lines("one\r\n\ntwo\n"),
        vec![plain(vec![bare("  one")]), plain(vec![bare("  ")]), plain(vec![bare("  two")])]
    );
    assert_eq!(build_body_lines("\n"), vec![plain(vec![bare("  ")])]);
}

#[test]
fn lines_of_reviews() {
    assert_eq!(
        build_reviews_lines(&vec![review(Some("bob"), "COMMENTED", "")], 0),
        (vec![plain(vec![fg("  (no reviews)", Tint::DarkGray)])], 0)
    );
    let reviews = vec![
        review(Some("bob"), "COMMENTED", ""),
        review(Some("ann"), "APPROVED", ""),
        review(None, "COMMENTED", "a\nb"),
    ];
    assert_eq!(count_meaningful(&reviews), 2);
    let head_ann = vec![
        bare("  "),
        fg("✓", Tint::Green),
        bare(" "),
        fg("ann", Tint::Cyan),
        bare("  "),
        fg("APPROVED", Tint::Green),
    ];
    let head_none = vec![
        bare("  "),
        fg("💬", Tint::DarkGray),
        bare(" "),
        fg("unknown", Tint::Cyan),
        bare("  "),
        fg("COMMENTED", Tint::DarkGray),
    ];
    let (lines, at) = build_reviews_lines(&reviews, 1);
    assert_eq!(at, 2);
    assert_eq!(lines.len(), 5);
    assert_eq!(lines[0], plain(head_ann));
    assert_eq!(lines[1], plain(Vec::new()));
    assert_eq!(lines[2], SheetLine { runs: head_none, selected: true });
    assert_eq!(lines[3], plain(vec![bare("  a")]));
    assert_eq!(lines[4], plain(vec![bare("  b")]));
    let (first, at) = build_reviews_lines(&reviews, 0);
    assert_eq!(at, 0);
    assert!(first[0].selected);
    assert!(!first[2].selected);
    let (nothing, at) = build_reviews_lines(&reviews, 9);
    assert_eq!(at, 0);
    assert!(nothing.iter().all(|l| !l.selected));
}

#[test]
fn lines_of_comments() {
    assert_eq!(
        build_comments_lines(&Vec::new(), 0),
        (vec![plain(vec![fg("  (no comments)", Tint::DarkGray)])], 0)
    );
    let comments = vec![comment(Some("ann"), "first\nline"), comment(None, ""), comment(Some("bob"), "x")];
    let (lines, at) = build_comments_lines(&comments, 2);
    assert_eq!(at, 6);
    assert_eq!(lines.len(), 8);
    assert_eq!(lines[0], plain(vec![bare("  "), fg("ann", Tint::Cyan), bare("  2024-02-03")]));
    assert_eq!(lines[1], plain(vec![bare("  first")]));
    assert_eq!(lines[2], plain(vec![bare("  line")]));
    assert_eq!(lines[3], plain(Vec::new()));
    assert_eq!(lines[4], plain(vec![bare("  "), fg("unknown", Tint::Cyan), bare("  2024-02-03")]));
    assert_eq!(lines[5], plain(Vec::new()));
    assert_eq!(
        lines[6],
        SheetLine {
            runs: vec![bare("  "), fg("bob", Tint::Cyan), bare("  2024-02-03")],
            selected: true
        }
    );
    assert_eq!(lines[7], plain(vec![bare("  x")]));
}

#[test]
fn rows_of_checks() {
    let row = build_check_row(&check("build (linux, stable)", Some("CI"), "COMPLETED", Some("SUCCESS")));
    assert_eq!(
        row,
        CheckRow {
            mark: "✓".to_string(),
            tint: Tint::Green,
            workflow: "CI".to_string(),
            job: "build".to_string(),
            params: "linux, stable".to_string(),
            duration: "1m05s".to_string(),
        }
    );
    assert!(build_check_rows(&pull(None, None)).is_empty());
    let rows = build_check_rows(&pull(
        None,
        Some(vec![
            check("test", Some("CI"), "IN_PROGRESS", None),
            check("lint", None, "QUEUED", None),
            check("build", Some("CI"), "COMPLETED", Some("FAILURE")),
        ]),
    ));
    let order: Vec<(&str, &str, &str)> =
        rows.iter().map(|r| (r.workflow.as_str(), r.job.as_str(), r.mark.as_str())).collect();
    assert_eq!(order, vec![("", "lint", "◯"), ("CI", "build", "✗"), ("CI", "test", "◐")]);
}

#[test]
fn titles_and_placeholders() {
    assert_eq!(counted_title("Comments", 0), "Comments (0)");
    assert_eq!(counted_title("Checks", 12), "Checks (12)");
    assert_eq!(pane_title("Body", true, true), run(" Body ", Some(Tint::Cyan), None, true));
    assert_eq!(pane_title("Body", true, false), fg(" Body ", Tint::DarkGray));
    assert_eq!(pane_title("Body", false, true), fg(" Body ", Tint::DarkGray));
    assert_eq!(
        placeholder(&GhDetailContent::Empty),
        Some(fg("  Select an issue or PR to view details", Tint::DarkGray))
    );
    assert_eq!(
        placeholder(&GhDetailContent::Loading { kind: GhDetailKind::Issue, number: 5 }),
        Some(fg("  Loading issue #5...", Tint::DarkGray))
    );
    assert_eq!(
        placeholder(&GhDetailContent::Loading { kind: GhDetailKind::Pr, number: 120 }),
        Some(fg("  Loading PR #120...", Tint::DarkGray))
    );
    assert_eq!(
        placeholder(&GhDetailContent::Error("no network".to_string())),
        Some(fg("  Error: no network", Tint::Red))
    );
    assert_eq!(placeholder(&GhDetailContent::Pr(Box::new(pull(None, None)))), None);
}

#[test]
fn entries_of_the_lists() {
    let issue = |state: &str| GhIssueListItem {
        number: 3,
        title: "T".to_string(),
        state: state.to_string(),
        author: None,
        labels: Vec::new(),
        created_at: String::new(),
    };
    assert_eq!(
        build_issue_item(&issue("OPEN")),
        vec![bare(" "), fg("●", Tint::Green), bare(" "), fg("#3", Tint::Yellow), bare(" "), bare("T")]
    );
    assert_eq!(build_issue_item(&issue("CLOSED"))[1], fg("✓", Tint::Red));
    let pr = |state: &str, decision: Option<&str>, is_draft: bool| GhPrListItem {
        number: 44,
        title: "P".to_string(),
        state: state.to_string(),
        author: None,
        labels: Vec::new(),
        head_ref_name: String::new(),
        created_at: String::new(),
        review_decision: decision.map(str::to_string),
        is_draft,
    };
    assert_eq!(
        build_pr_item(&pr("MERGED", Some("APPROVED"), true)),
        vec![
            bare(" "),
            fg("⊕", Tint::Magenta),
            bare(" "),
            fg("#44", Tint::Yellow),
            bare(" "),
            bare("P"),
            bare(" "),
            fg("✓", Tint::Green),
            bare(" "),
            fg("[draft]", Tint::DarkGray),
        ]
    );
    let closed = build_pr_item(&pr("CLOSED", Some("CHANGES_REQUESTED"), false));
    assert_eq!(closed[1], fg("✓", Tint::Red));
    assert_eq!(closed[7], fg("✗", Tint::Red));
    assert_eq!(closed.len(), 8);
    let open = build_pr_item(&pr("OPEN", Some("REVIEW_REQUIRED"), false));
    assert_eq!(open[1], fg("●", Tint::Green));
    assert_eq!(open.len(), 6);
}
