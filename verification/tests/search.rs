use vig::cursor::DiffSide;
use vig::diff::{align_hunk_lines, DiffHunk, FileDiff, FileStatus, RawHunkLine};
use vig::search::{
    contains, find_matches, fold, search_diff, step_match_index, text_matches, SearchMatch,
    SearchOrigin, SearchState,
};

fn chars(s: &str) -> Vec<char> {
    s.chars().collect()
}

fn raw(origin: char, text: &str) -> RawHunkLine {
    RawHunkLine { origin, old_lineno: Some(1), new_lineno: Some(1), content: text.to_string() }
}

fn sample_file() -> FileDiff {
    FileDiff {
        path: "a.rs".to_string(),
        status: FileStatus::Modified,
        hunks: vec![
            DiffHunk {
                header: "@@ -1 +1 @@ fn Line()".to_string(),
                rows: align_hunk_lines(&vec![raw('-', "old line"), raw('+', "new LINE line")]),
            },
            DiffHunk {
                header: "@@ -9 +9 @@".to_string(),
                rows: align_hunk_lines(&vec![raw(' ', "no match"), raw('+', "inline")]),
            },
        ],
        is_binary: false,
    }
}

#[test]
fn matches_are_leftmost_and_do_not_overlap() {
    assert_eq!(find_matches(&chars("abcabcab"), &chars("abc")), vec![0, 3]);
    assert_eq!(find_matches(&chars("aaaa"), &chars("aa")), vec![0, 2]);
    assert_eq!(find_matches(&chars("aaaaa"), &chars("aa")), vec![0, 2]);
    assert_eq!(find_matches(&chars("abc"), &chars("abcd")), Vec::<usize>::new());
    assert_eq!(find_matches(&chars("abc"), &chars("c")), vec![2]);
    assert_eq!(find_matches(&chars("abc"), &chars("abc")), vec![0]);
    assert_eq!(find_matches(&chars(""), &chars("a")), Vec::<usize>::new());
    assert_eq!(find_matches(&chars("ab"), &chars("")), vec![0, 1, 2]);
    assert_eq!(find_matches(&chars(""), &chars("")), vec![0]);
}

#[test]
fn containment() {
    assert!(contains(&chars("hello world"), &chars("lo w")));
    assert!(contains(&chars("hello"), &chars("")));
    assert!(contains(&chars("hello"), &chars("hello")));
    assert!(!contains(&chars("hello"), &chars("hellos")));
    assert!(!contains(&chars("hello"), &chars("xyz")));
    assert!(contains(&chars(""), &chars("")));
    assert!(text_matches("Feature/LOGIN", &chars("login")));
    assert!(!text_matches("Feature/LOGIN", &chars("LOGIN")));
}

#[test]
fn diff_search_ignores_case_and_reports_rows_and_columns() {
    let found = search_diff(&sample_file(), "LiNe");
    assert_eq!(
        found,
        vec![
            SearchMatch::DiffLine { row: 0, col_start: 15, col_end: 19, side: DiffSide::Left },
            SearchMatch::DiffLine { row: 1, col_start: 4, col_end: 8, side: DiffSide::Left },
            SearchMatch::DiffLine { row: 1, col_start: 4, col_end: 8, side: DiffSide::Right },
            SearchMatch::DiffLine { row: 1, col_start: 9, col_end: 13, side: DiffSide::Right },
            SearchMatch::DiffLine { row: 4, col_start: 2, col_end: 6, side: DiffSide::Right },
        ]
    );
    assert!(search_diff(&sample_file(), "absent").is_empty());
    let context = search_diff(&sample_file(), "no match");
    assert_eq!(
        context,
        vec![
            SearchMatch::DiffLine { row: 3, col_start: 0, col_end: 8, side: DiffSide::Left },
            SearchMatch::DiffLine { row: 3, col_start: 0, col_end: 8, side: DiffSide::Right },
        ]
    );
}

#[test]
fn jumping_is_cyclic() {
    assert_eq!(step_match_index(None, 5, true), 0);
    assert_eq!(step_match_index(None, 5, false), 4);
    assert_eq!(step_match_index(Some(0), 5, true), 1);
    assert_eq!(step_match_index(Some(4), 5, true), 0);
    assert_eq!(step_match_index(Some(0), 5, false), 4);
    assert_eq!(step_match_index(Some(3), 5, false), 2);
    assert_eq!(step_match_index(Some(0), 1, true), 0);
    assert_eq!(step_match_index(Some(0), 1, false), 0);
    assert_eq!(step_match_index(Some(7), 5, true), 3);
    assert_eq!(step_match_index(Some(usize::MAX), 4, true), 0);
    for total in 1..9usize {
        for start in 0..total {
            let mut idx = start;
            for _ in 0..total {
                idx = step_match_index(Some(idx), total, true);
            }
            assert_eq!(idx, start);
            let there = step_match_index(Some(start), total, true);
            assert_eq!(step_match_index(Some(there), total, false), start);
            let back = step_match_index(Some(start), total, false);
            assert_eq!(step_match_index(Some(back), total, true), start);
        }
    }
}

#[test]
fn new_search_state_is_empty() {
    let s = SearchState::new();
    assert!(!s.active);
    assert_eq!(s.input, "");
    assert_eq!(s.query, None);
    assert_eq!(s.origin, SearchOrigin::DiffView);
    assert!(s.matches.is_empty());
    assert_eq!(s.current_match_idx, None);
    assert_eq!(s.last_query, None);
    assert!(s.history.is_empty());
}

#[test]
fn starting_and_clearing_a_search() {
    let mut s = SearchState::new();
    s.query = Some("old".to_string());
    s.matches.push(SearchMatch::TreeEntry(1));
    s.current_match_idx = Some(0);
    s.history.push("old".to_string());
    s.input = "typing".to_string();
    s.clear();
    assert!(!s.active);
    assert_eq!(s.input, "");
    assert_eq!(s.query, None);
    assert_eq!(s.last_query, Some("old".to_string()));
    assert!(s.matches.is_empty());
    assert_eq!(s.current_match_idx, None);
    assert_eq!(s.history, vec!["old".to_string()]);
    s.clear();
    assert_eq!(s.last_query, Some("old".to_string()));
    s.matches.push(SearchMatch::TreeEntry(1));
    s.current_match_idx = Some(0);
    s.start(SearchOrigin::Reflog);
    assert!(s.active);
    assert_eq!(s.origin, SearchOrigin::Reflog);
    assert_eq!(s.query, None);
    assert!(s.matches.is_empty());
    assert_eq!(s.current_match_idx, None);
    assert_eq!(s.last_query, Some("old".to_string()));
    assert_eq!(s.history, vec!["old".to_string()]);
    s.matches.push(SearchMatch::CommitEntry(2));
    s.current_match_idx = Some(0);
    s.reset_matches();
    assert!(s.matches.is_empty());
    assert_eq!(s.current_match_idx, None);
    assert!(s.active);
}

#[test]
fn history_skips_repeats_and_keeps_typed_input() {
    let mut s = SearchState::new();
    s.push_history("");
    assert!(s.history.is_empty());
    s.history_prev();
    assert_eq!(s.input, "");
    s.push_history("one");
    s.push_history("one");
    s.push_history("two");
    s.push_history("one");
    assert_eq!(s.history, vec!["one", "two", "one"]);
    s.input = "typed".to_string();
    s.history_next();
    assert_eq!(s.input, "typed");
    s.history_prev();
    assert_eq!((s.input.as_str(), s.history_idx), ("one", Some(2)));
    s.history_prev();
    assert_eq!((s.input.as_str(), s.history_idx), ("two", Some(1)));
    s.history_prev();
    s.history_prev();
    assert_eq!((s.input.as_str(), s.history_idx), ("one", Some(0)));
    s.history_next();
    assert_eq!((s.input.as_str(), s.history_idx), ("two", Some(1)));
    s.history_next();
    s.history_next();
    assert_eq!((s.input.as_str(), s.history_idx), ("typed", None));
    s.history_idx = Some(99);
    s.history_prev();
    assert_eq!(s.history_idx, Some(99));
    s.history_next();
    assert_eq!((s.input.as_str(), s.history_idx), ("typed", None));
}

fn one_line(text: &str) -> FileDiff {
    FileDiff {
        path: "a.txt".to_string(),
        status: FileStatus::Modified,
        hunks: vec![DiffHunk { header: "@@".to_string(), rows: align_hunk_lines(&vec![raw('+', text)]) }],
        is_binary: false,
    }
}

fn columns(text: &str, query: &str) -> Vec<(usize, usize)> {
    search_diff(&one_line(text), query)
        .into_iter()
        .filter_map(|hit| match hit {
            SearchMatch::DiffLine { row: 1, col_start, col_end, side: DiffSide::Right } => {
                Some((col_start, col_end))
            }
            _ => None,
        })
        .collect()
}

#[test]
fn folding_keeps_the_place_of_every_character() {
    assert_eq!(fold("aBc"), (chars("abc"), vec![0, 1, 2]));
    assert_eq!(fold(""), (Vec::new(), Vec::new()));
    let (folded, origins) = fold("\u{130}\u{130}a");
    assert_eq!(folded, chars("i\u{307}i\u{307}a"));
    assert_eq!(origins, vec![0, 0, 1, 1, 2]);
}

#[test]
fn columns_are_characters_of_the_line() {
    assert_eq!(columns("\u{130}\u{130}a", "a"), vec![(2, 3)]);
    assert_eq!(columns("\u{130}\u{130}a", "A"), vec![(2, 3)]);
    assert_eq!(columns("x\u{130}y", "\u{130}"), vec![(1, 2)]);
    assert_eq!(columns("x\u{130}y", "i"), vec![(1, 2)]);
    assert_eq!(columns("x\u{130}y", "\u{130}y"), vec![(1, 3)]);
    assert_eq!(columns("\u{e9}t\u{e9} \u{c9}T\u{c9}", "\u{c9}t\u{e9}"), vec![(0, 3), (4, 7)]);
    assert_eq!(columns("abc", ""), vec![(0, 0), (1, 1), (2, 2), (3, 3)]);
    for (start, end) in columns("\u{130}a\u{130}A", "a") {
        assert!(start < end && end <= 4);
    }
}
