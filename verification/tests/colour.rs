use vig::app::App;
use vig::diff::{align_hunk_lines, DiffHunk, DiffState, FileDiff, FileStatus, RawHunkLine};
use syntect::highlighting::{Theme, ThemeSet};
use vig::syntax::{choose_theme, expand_colors, HighlightCache, Rgb, SyntaxHighlighter};

fn strings(lines: &[&str]) -> Vec<String> {
    lines.iter().map(|l| l.to_string()).collect()
}

fn rust_lines() -> Vec<String> {
    strings(&[
        "",
        "fn main() {",
        "    let s = \"text\"; // note",
        "    /* open",
        "",
        "    let n = 42;",
        "    still */ let m = 1;",
        "}",
    ])
}

#[test]
fn grammar_is_found_by_extension_or_first_line() {
    let hl = SyntaxHighlighter::new();
    assert!(hl.find_syntax("src/main.rs", None).is_some());
    assert!(hl.find_syntax("Cargo.toml", None).is_some());
    assert!(hl.find_syntax("a.b.py", None).is_some());
    assert!(hl.find_syntax("Makefile", None).is_some());
    assert!(hl.find_syntax("file.unknownext", None).is_none());
    assert!(hl.find_syntax("script", None).is_none());
    assert!(hl.find_syntax("script", Some("#!/bin/bash")).is_some());
    assert!(hl.find_syntax("script", Some("just some words")).is_none());
    assert!(hl.find_syntax("dir.d/script", Some("#!/usr/bin/env python")).is_some());
}

#[test]
fn cache_is_made_only_where_a_grammar_matches() {
    let hl = SyntaxHighlighter::new();
    let cache = hl.create_cache("x.rs", rust_lines(), rust_lines(), vec![0]).unwrap();
    assert_eq!(cache.file_path, "x.rs");
    assert_eq!(cache.processed_up_to, 0);
    assert!(cache.left_colors.is_empty());
    assert!(cache.right_colors.is_empty());
    assert!(hl.create_cache("x.unknownext", rust_lines(), rust_lines(), vec![0]).is_none());
    assert!(hl.highlight_all_lines("x.unknownext", &rust_lines(), &rust_lines(), &vec![0]).is_none());
    let script = strings(&["", "#!/bin/sh", "echo hi"]);
    assert!(hl.create_cache("run", script.clone(), script.clone(), vec![0]).is_some());
    assert!(hl.create_cache("run", script.clone(), script.clone(), vec![0, 1]).is_none());
}

#[test]
fn every_character_gets_a_colour() {
    let hl = SyntaxHighlighter::new();
    let lines = rust_lines();
    let (left, right) = hl.highlight_all_lines("x.rs", &lines, &lines, &vec![0]).unwrap();
    assert_eq!(left.len(), lines.len());
    assert_eq!(right.len(), lines.len());
    for (row, line) in lines.iter().enumerate() {
        assert_eq!(left[row].len(), line.chars().count());
        assert_eq!(left[row], right[row]);
    }
    let keyword = left[1][0];
    let name = left[1][3];
    assert_ne!(keyword, name);
    let string = left[2][13];
    let comment = left[2][23];
    assert_ne!(string, comment);
    assert_eq!(left[5][8], comment);
    assert_ne!(left[6][17], comment);
    let wide = strings(&["", "let s = \"é→ü\";"]);
    let (l, _) = hl.highlight_all_lines("x.rs", &wide, &wide, &vec![0]).unwrap();
    assert_eq!(l[1].len(), 14);
}

#[test]
fn extending_is_monotonic_and_idempotent() {
    let hl = SyntaxHighlighter::new();
    let lines = rust_lines();
    let mut cache = hl.create_cache("x.rs", lines.clone(), lines.clone(), vec![0]).unwrap();
    hl.extend_cache(&mut cache, 3);
    assert_eq!(cache.processed_up_to, 3);
    assert_eq!(cache.left_colors.len(), 3);
    assert_eq!(cache.right_colors.len(), 3);
    let first_left = cache.left_colors.clone();
    let first_right = cache.right_colors.clone();
    hl.extend_cache(&mut cache, 3);
    assert_eq!(cache.processed_up_to, 3);
    assert_eq!(cache.left_colors, first_left);
    assert_eq!(cache.right_colors, first_right);
    hl.extend_cache(&mut cache, 1);
    hl.extend_cache(&mut cache, 0);
    assert_eq!(cache.processed_up_to, 3);
    assert_eq!(cache.left_colors, first_left);
    hl.extend_cache(&mut cache, 6);
    assert_eq!(cache.processed_up_to, 6);
    assert_eq!(cache.left_colors[..3].to_vec(), first_left);
    assert_eq!(cache.right_colors[..3].to_vec(), first_right);
    hl.extend_cache(&mut cache, 500);
    assert_eq!(cache.processed_up_to, lines.len());
    assert_eq!(cache.left_colors.len(), lines.len());
    hl.extend_cache(&mut cache, usize::MAX);
    assert_eq!(cache.processed_up_to, lines.len());
}

#[test]
fn colouring_on_demand_equals_colouring_at_once() {
    let hl = SyntaxHighlighter::new();
    let left = rust_lines();
    let mut right = rust_lines();
    right[5] = "    let n = \"other\";".to_string();
    let starts = vec![0, 4];
    let eager = hl.highlight_all_lines("x.rs", &left, &right, &starts).unwrap();
    for steps in [vec![8usize], vec![1, 2, 3, 4, 5, 6, 7, 8], vec![5, 2, 8], vec![4, 100]].iter() {
        let mut cache = hl.create_cache("x.rs", left.clone(), right.clone(), starts.clone()).unwrap();
        for s in steps.iter() {
            hl.extend_cache(&mut cache, *s);
        }
        assert_eq!(cache.left_colors, eager.0);
        assert_eq!(cache.right_colors, eager.1);
    }
    assert!(eager.0[0].is_empty());
    assert!(eager.0[4].is_empty());
    assert_ne!(eager.0[5], eager.1[5]);
}

#[test]
fn shorter_side_limits_the_rows() {
    let hl = SyntaxHighlighter::new();
    let left = rust_lines();
    let right = strings(&["", "fn main() {"]);
    let (l, r) = hl.highlight_all_lines("x.rs", &left, &right, &vec![0]).unwrap();
    assert_eq!((l.len(), r.len()), (2, 2));
    let mut cache = hl.create_cache("x.rs", left, right, vec![0]).unwrap();
    hl.extend_cache(&mut cache, 50);
    assert_eq!(cache.processed_up_to, 2);
    assert_eq!(cache.left_colors, l);
}

#[test]
fn tokenizer_starts_afresh_at_every_hunk() {
    let hl = SyntaxHighlighter::new();
    let lines = strings(&["", "let s = \"not closed", "", "let x = 1; // fine"]);
    let whole = hl.highlight_all_lines("x.rs", &lines, &lines, &vec![0, 2]).unwrap();
    let second = strings(&["", "let x = 1; // fine"]);
    let alone = hl.highlight_all_lines("x.rs", &second, &second, &vec![0]).unwrap();
    assert_eq!(whole.0[3], alone.0[1]);
    assert_eq!(whole.1[3], alone.1[1]);
    assert!(whole.0[2].is_empty());
    let first = strings(&["", "let s = \"not closed"]);
    let first_alone = hl.highlight_all_lines("x.rs", &first, &first, &vec![0]).unwrap();
    assert_eq!(whole.0[1], first_alone.0[1]);
    let bleeding = hl.highlight_all_lines("x.rs", &lines, &lines, &vec![0]).unwrap();
    assert_ne!(bleeding.0[3], alone.0[1]);
    let mut cache = hl.create_cache("x.rs", lines.clone(), lines.clone(), vec![0, 2]).unwrap();
    hl.extend_cache(&mut cache, 2);
    hl.extend_cache(&mut cache, 4);
    assert_eq!(cache.left_colors, whole.0);
}

#[test]
fn first_line_grammar_is_reset_at_hunks_too() {
    let hl = SyntaxHighlighter::new();
    let lines = strings(&["", "#!/bin/sh", "echo \"open", "", "echo done # note"]);
    let eager = hl.highlight_all_lines("run", &lines, &lines, &vec![0, 3]).unwrap();
    let mut cache = hl.create_cache("run", lines.clone(), lines.clone(), vec![0, 3]).unwrap();
    hl.extend_cache(&mut cache, 3);
    hl.extend_cache(&mut cache, 5);
    assert_eq!(cache.left_colors, eager.0);
    assert_eq!(cache.right_colors, eager.1);
}

#[test]
fn precomputed_colours_are_kept_as_they_are() {
    let hl = SyntaxHighlighter::new();
    let red = Rgb { r: 255, g: 0, b: 0 };
    let mut cache = HighlightCache::from_precomputed(
        "x.rs".to_string(),
        vec![vec![red], vec![]],
        vec![vec![], vec![red, red]],
    );
    assert_eq!(cache.processed_up_to, 2);
    hl.extend_cache(&mut cache, 100);
    assert_eq!(cache.processed_up_to, 2);
    assert_eq!(cache.left_colors, vec![vec![red], vec![]]);
    assert_eq!(cache.right_colors, vec![vec![], vec![red, red]]);
    assert_eq!(cache.file_path, "x.rs");
}

fn raw(origin: char, text: String) -> RawHunkLine {
    RawHunkLine { origin, old_lineno: Some(1), new_lineno: Some(1), content: text }
}

fn big_file() -> FileDiff {
    let mut hunks = Vec::new();
    for h in 0..3 {
        let mut raws = Vec::new();
        for i in 0..200 {
            raws.push(raw(' ', format!("    let v{}_{} = {}; // row", h, i, i)));
        }
        hunks.push(DiffHunk { header: format!("@@ hunk {} @@", h), rows: align_hunk_lines(&raws) });
    }
    FileDiff { path: "big.rs".to_string(), status: FileStatus::Modified, hunks, is_binary: false }
}

#[test]
fn scrolling_far_down_colours_everything_above() {
    let file = big_file();
    let mut app = App::new(DiffState::assemble(vec![big_file()], "main".to_string()).unwrap());
    app.ensure_file_highlight(&file, 500);
    let cache = app.files.highlight_cache.as_ref().unwrap();
    assert_eq!(cache.file_path, "big.rs");
    assert!(cache.processed_up_to >= 500);
    assert_eq!(cache.left_colors.len(), cache.processed_up_to);
    for row in 0..500 {
        let is_header = row % 201 == 0;
        assert_eq!(cache.left_colors[row].is_empty(), is_header);
        assert_eq!(cache.right_colors[row].is_empty(), is_header);
    }
    let before = cache.left_colors.clone();
    app.ensure_file_highlight(&file, 100);
    let cache = app.files.highlight_cache.as_ref().unwrap();
    assert_eq!(cache.left_colors, before);
    app.ensure_file_highlight(&file, 10_000);
    assert_eq!(app.files.highlight_cache.as_ref().unwrap().processed_up_to, 603);
}

#[test]
fn background_colours_are_used_when_they_are_there() {
    let file = big_file();
    let mut app = App::new(DiffState::assemble(vec![big_file()], "main".to_string()).unwrap());
    let blue = Rgb { r: 0, g: 0, b: 255 };
    let first = vec![vec![blue]; 603];
    let second = vec![vec![blue, blue]; 603];
    app.drain_bg_highlights("other.rs".to_string(), vec![vec![]], vec![vec![]]);
    app.drain_bg_highlights("big.rs".to_string(), first.clone(), first.clone());
    app.drain_bg_highlights("big.rs".to_string(), second.clone(), first.clone());
    assert_eq!(app.files.bg_highlights.len(), 2);
    app.ensure_file_highlight(&file, 500);
    let cache = app.files.highlight_cache.as_ref().unwrap();
    assert!(cache.incremental.is_none());
    assert_eq!(cache.left_colors, second);
    assert_eq!(cache.right_colors, first);
    assert_eq!(cache.processed_up_to, 603);
    assert_eq!(app.files.bg_highlights.len(), 1);
    assert_eq!(app.files.bg_highlights[0].path, "other.rs");
    app.ensure_file_highlight(&file, 10_000);
    assert_eq!(app.files.highlight_cache.as_ref().unwrap().left_colors, second);
    let text = FileDiff {
        path: "notes.unknownext".to_string(),
        status: FileStatus::Added,
        hunks: Vec::new(),
        is_binary: false,
    };
    app.ensure_file_highlight(&text, 5);
    assert!(app.files.highlight_cache.is_none());
}

#[test]
fn background_colours_that_do_not_fit_the_file_are_dropped() {
    let file = big_file();
    let mut app = App::new(DiffState::assemble(vec![big_file()], "main".to_string()).unwrap());
    let blue = Rgb { r: 0, g: 0, b: 255 };
    app.drain_bg_highlights("big.rs".to_string(), vec![vec![blue]], vec![vec![blue]]);
    app.ensure_file_highlight(&file, 500);
    assert!(app.files.bg_highlights.is_empty());
    let cache = app.files.highlight_cache.as_ref().unwrap();
    assert!(cache.incremental.is_some());
    assert_eq!(cache.file_path, "big.rs");
    assert!(cache.left_colors.len() >= 500 && cache.right_colors.len() >= 500);
    assert_ne!(cache.left_colors[1], vec![blue]);
}

#[test]
fn colours_are_for_the_file_of_the_diff() {
    let mut app = App::new(DiffState::assemble(vec![big_file()], "main".to_string()).unwrap());
    let mut other = big_file();
    other.hunks.truncate(1);
    app.ensure_file_highlight(&other, 500);
    let cache = app.files.highlight_cache.as_ref().unwrap();
    assert_eq!(cache.left_colors.len(), 500);
    let mut stranger = big_file();
    stranger.path = "elsewhere.rs".to_string();
    app.ensure_file_highlight(&stranger, 500);
    assert!(app.files.highlight_cache.is_none());
}

#[test]
fn pieces_expand_to_one_colour_per_character() {
    let red = Rgb { r: 255, g: 0, b: 0 };
    let blue = Rgb { r: 0, g: 0, b: 255 };
    let pieces = vec![(red, "fn".to_string()), (blue, " é→".to_string()), (red, "\n".to_string())];
    assert_eq!(expand_colors(Some(pieces)), vec![red, red, blue, blue, blue]);
    assert_eq!(expand_colors(Some(vec![(red, "\n".to_string())])), Vec::<Rgb>::new());
    assert_eq!(expand_colors(Some(vec![(red, String::new()), (blue, "ab".to_string())])), vec![blue]);
    assert_eq!(expand_colors(Some(Vec::new())), Vec::<Rgb>::new());
    assert_eq!(expand_colors(None), Vec::<Rgb>::new());
}

#[test]
fn background_colours_that_come_too_late_are_dropped() {
    let file = big_file();
    let mut app = App::new(DiffState::assemble(vec![big_file()], "main".to_string()).unwrap());
    let blue = Rgb { r: 0, g: 0, b: 255 };
    app.ensure_file_highlight(&file, 20);
    let on_demand = app.files.highlight_cache.as_ref().unwrap().left_colors.clone();
    assert_eq!(on_demand.len(), 20);
    app.drain_bg_highlights("big.rs".to_string(), vec![vec![blue]], vec![vec![blue]]);
    assert!(app.files.bg_highlights.is_empty());
    assert_eq!(app.files.highlight_cache.as_ref().unwrap().left_colors, on_demand);
    app.drain_bg_highlights("other.rs".to_string(), vec![vec![blue]], vec![vec![blue]]);
    assert_eq!(app.files.bg_highlights.len(), 1);
    app.ensure_file_highlight(&file, 30);
    let cache = app.files.highlight_cache.as_ref().unwrap();
    assert!(cache.incremental.is_some());
    assert_eq!(cache.processed_up_to, 30);
    assert_eq!(cache.left_colors[..20], on_demand[..]);
}

#[test]
fn the_theme_asked_for_comes_first() {
    let named = |name: &str| Theme { name: Some(name.to_string()), ..Theme::default() };
    let plain = Theme::default();
    assert_eq!(choose_theme(Some(named("a")), Some(named("b")), plain.clone()), named("a"));
    assert_eq!(choose_theme(Some(named("a")), None, plain.clone()), named("a"));
    assert_eq!(choose_theme(None, Some(named("b")), plain.clone()), named("b"));
    assert_eq!(choose_theme(None, None, plain.clone()), plain);
    let bundled = ThemeSet::load_defaults();
    assert_eq!(SyntaxHighlighter::new().theme, bundled.themes["base16-eighties.dark"]);
}
