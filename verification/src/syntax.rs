//! Syntax colouring. A grammar is picked from the file's extension or its
//! first line; a stack-based tokenizer then gives every character of every
//! display line a foreground colour. The tokenizer's state is an explicit
//! value, so colouring can stop at any row and go on later, and the state is
//! reset at the first row of every hunk.

use crate::text::{chars_of, same_text, string_of_range};
use syntect::highlighting::{HighlightIterator, HighlightState, Highlighter, Theme, ThemeSet};
use syntect::parsing::{
    ParseState, ScopeStack, ScopeStackOp, SyntaxDefinition, SyntaxReference, SyntaxSet,
};
use vstd::prelude::*;

verus! {

/// `syntect::parsing::SyntaxSet`, a set of grammars, carried as an opaque
/// value.
#[verifier::external_type_specification]
#[verifier::external_body]
pub struct ExSyntaxSet(syntect::parsing::SyntaxSet);

/// `syntect::parsing::SyntaxReference`, one grammar of a set, carried as an
/// opaque value.
#[verifier::external_type_specification]
#[verifier::external_body]
pub struct ExSyntaxReference(syntect::parsing::SyntaxReference);

/// `syntect::parsing::ParseState`, the state of the tokenizer between two
/// lines, carried as an opaque value.
#[verifier::external_type_specification]
#[verifier::external_body]
pub struct ExParseState(syntect::parsing::ParseState);

/// `syntect::highlighting::Theme`, the colours for the scopes, carried as an
/// opaque value.
#[verifier::external_type_specification]
#[verifier::external_body]
pub struct ExTheme(syntect::highlighting::Theme);

/// `syntect::highlighting::ThemeSet`, themes by name, carried as an opaque
/// value.
#[verifier::external_type_specification]
#[verifier::external_body]
pub struct ExThemeSet(syntect::highlighting::ThemeSet);

/// `syntect::highlighting::HighlightState`, the styles of the open scopes
/// between two lines, carried as an opaque value.
#[verifier::external_type_specification]
#[verifier::external_body]
pub struct ExHighlightState(syntect::highlighting::HighlightState);

/// `syntect::parsing::ScopeStackOp`, one change of the open scopes at a
/// place in a line, carried as an opaque value.
#[verifier::external_type_specification]
#[verifier::external_body]
pub struct ExScopeStackOp(syntect::parsing::ScopeStackOp);

/// A foreground colour.
#[derive(Debug, Clone, Copy, PartialEq, Eq, Structural)]
pub struct Rgb {
    pub r: u8,
    pub g: u8,
    pub b: u8,
}

impl DeepView for Rgb {
    type V = Rgb;

    open spec fn deep_view(&self) -> Rgb {
        *self
    }
}

/// A grammar for TOML, which the bundled grammars lack.
pub const TOML_SYNTAX: &'static str = r#"%YAML 1.2
---
name: TOML
file_extensions: [toml]
scope: source.toml
contexts:
  main:
    - match: '#.*$'
      scope: comment.line.number-sign.toml
    - match: '\[{1,2}'
      scope: punctuation.definition.table.begin.toml
      push: table_name
    - match: '([A-Za-z0-9_.-]+)\s*(=)'
      captures:
        1: entity.name.tag.toml
        2: punctuation.separator.key-value.toml
    - match: '"""'
      scope: punctuation.definition.string.begin.toml
      push: triple_double_string
    - match: "'''"
      scope: punctuation.definition.string.begin.toml
      push: triple_single_string
    - match: '"'
      scope: punctuation.definition.string.begin.toml
      push: double_string
    - match: "'"
      scope: punctuation.definition.string.begin.toml
      push: single_string
    - match: '\b(true|false)\b'
      scope: constant.language.boolean.toml
    - match: '\b\d{4}-\d{2}-\d{2}(T\d{2}:\d{2}:\d{2})?\b'
      scope: constant.other.datetime.toml
    - match: '[+-]?\b\d[\d_]*(\.[\d_]+)?([eE][+-]?\d+)?\b'
      scope: constant.numeric.toml
  table_name:
    - match: '\]{1,2}'
      scope: punctuation.definition.table.end.toml
      pop: true
    - match: '[^\]]+'
      scope: entity.name.section.toml
  double_string:
    - meta_scope: string.quoted.double.toml
    - match: '\\.'
      scope: constant.character.escape.toml
    - match: '"'
      scope: punctuation.definition.string.end.toml
      pop: true
  single_string:
    - meta_scope: string.quoted.single.toml
    - match: "'"
      scope: punctuation.definition.string.end.toml
      pop: true
  triple_double_string:
    - meta_scope: string.quoted.triple.double.toml
    - match: '\\.'
      scope: constant.character.escape.toml
    - match: '"""'
      scope: punctuation.definition.string.end.toml
      pop: true
  triple_single_string:
    - meta_scope: string.quoted.triple.single.toml
    - match: "'''"
      scope: punctuation.definition.string.end.toml
      pop: true
"#;

/// Whether a set is one that syntect loaded and checked: it is the set
/// bundled with syntect, or that set with the TOML grammar of this library
/// added by syntect's own loader. In such a set every grammar has its start
/// context and every pattern compiles, so that searching it and parsing
/// with it do not panic.
pub uninterp spec fn well_loaded(set: SyntaxSet) -> bool;

/// `SyntaxSet::load_defaults_newlines`: the grammars bundled with syntect.
/// Syntect's loader built them, with their start contexts, and their
/// patterns compile with the engine in use. Nothing else is claimed of the
/// set.
#[verifier::external_body]
fn bundled_syntaxes() -> (set: SyntaxSet)
    ensures
        well_loaded(set),
{
    SyntaxSet::load_defaults_newlines()
}

/// Rebuilds a loaded set with the TOML grammar of this library, given as a
/// sublime-syntax text: `SyntaxSet::into_builder`,
/// `SyntaxDefinition::load_from_str`, `SyntaxSetBuilder::add` and
/// `SyntaxSetBuilder::build`. The loader gives the grammar its start
/// context and compiles its patterns; a text that does not load is left
/// out. The set is still a loaded one. This is claimed of this one text
/// only, which names no pattern for first lines (the loader would take that
/// one unchecked).
#[verifier::external_body]
fn with_grammar(set: SyntaxSet, definition: &str) -> (extended: SyntaxSet)
    requires
        well_loaded(set),
        definition@ == TOML_SYNTAX@,
    ensures
        well_loaded(extended),
{
    let mut builder = set.into_builder();
    if let Ok(loaded) = SyntaxDefinition::load_from_str(definition, true, None) {
        builder.add(loaded);
    }
    builder.build()
}

/// `ThemeSet::load_defaults`: the themes bundled with syntect. Nothing is
/// claimed of the set.
#[verifier::external_body]
fn bundled_themes() -> ThemeSet {
    ThemeSet::load_defaults()
}

/// Reads the field `themes` of a theme set, a map by name, and looks the
/// name up in it. Nothing is claimed of the theme.
#[verifier::external_body]
fn theme_named(themes: &ThemeSet, name: &str) -> Option<Theme> {
    themes.themes.get(name).cloned()
}

/// Reads the field `themes` of a theme set and takes the first theme in
/// the order of the names, if there is any. Nothing is claimed of it.
#[verifier::external_body]
fn first_theme(themes: &ThemeSet) -> Option<Theme> {
    themes.themes.values().next().cloned()
}

/// `Theme::default`: a theme without rules.
#[verifier::external_body]
fn plain_theme() -> Theme {
    Theme::default()
}

/// The grammar that `SyntaxSet::find_syntax_by_extension` finds in a set for
/// a file extension.
pub uninterp spec fn grammar_by_extension(set: SyntaxSet, extension: Seq<char>) -> Option<
    SyntaxReference,
>;

/// `SyntaxSet::find_syntax_by_extension` searches the set's grammars for one
/// that lists the extension. The search reads nothing but the set and the
/// extension, so its result is named; the grammar found is handed out as a copy.
#[verifier::external_body]
fn syntax_by_extension(set: &SyntaxSet, extension: &str) -> (r: Option<SyntaxReference>)
    ensures
        r == grammar_by_extension(*set, extension@),
{
    set.find_syntax_by_extension(extension).cloned()
}

/// The grammar that `SyntaxSet::find_syntax_by_first_line` finds in a set for
/// the first line of a file.
pub uninterp spec fn grammar_by_first_line(set: SyntaxSet, line: Seq<char>) -> Option<
    SyntaxReference,
>;

/// `SyntaxSet::find_syntax_by_first_line` tries the first-line patterns of
/// the set's grammars on the line. The search reads nothing but the set and
/// the line, so its result is named; the grammar found is handed out as a
/// copy. The patterns are compiled when they are first used, and one that
/// does not compile makes the search panic: the precondition admits only a
/// loaded set.
#[verifier::external_body]
fn syntax_by_first_line(set: &SyntaxSet, line: &str) -> (r: Option<SyntaxReference>)
    requires
        well_loaded(*set),
    ensures
        r == grammar_by_first_line(*set, line@),
{
    set.find_syntax_by_first_line(line).cloned()
}

/// The name a grammar carries in its field `name`.
pub uninterp spec fn grammar_name(grammar: SyntaxReference) -> Seq<char>;

/// Reads the field `name` of a grammar.
#[verifier::external_body]
fn syntax_name(grammar: &SyntaxReference) -> (name: String)
    ensures
        name@ == grammar_name(*grammar),
{
    grammar.name.clone()
}

/// Whether a search of the set can find the grammar.
pub open spec fn set_holds(set: SyntaxSet, grammar: SyntaxReference) -> bool {
    ||| exists|extension: Seq<char>| #[trigger]
        grammar_by_extension(set, extension) == Some(grammar)
    ||| exists|line: Seq<char>| #[trigger] grammar_by_first_line(set, line) == Some(grammar)
}

/// Whether a grammar was found in a loaded set.
pub open spec fn loaded_grammar(grammar: SyntaxReference) -> bool {
    exists|set: SyntaxSet| well_loaded(set) && #[trigger] set_holds(set, grammar)
}

/// The parser state that `ParseState::new` makes for a grammar.
pub uninterp spec fn initial_parse(grammar: SyntaxReference) -> ParseState;

/// `ParseState::new` makes the parser state for the start of a file. It
/// reads nothing but the grammar, so its result is named. It looks up the
/// grammar's start context and panics where there is none: the
/// precondition admits only grammars found in a loaded set.
#[verifier::external_body]
fn fresh_parse(grammar: &SyntaxReference) -> (state: ParseState)
    requires
        loaded_grammar(*grammar),
    ensures
        state == initial_parse(*grammar),
{
    ParseState::new(grammar)
}

/// The style state that `HighlightState::new` makes for a theme and an empty
/// scope stack.
pub uninterp spec fn initial_styles(theme: Theme) -> HighlightState;

/// `HighlightState::new`, on a `Highlighter` for the theme and an empty
/// `ScopeStack`, makes the style state for the start of a file. It reads
/// nothing but the theme, so its result is named.
#[verifier::external_body]
fn fresh_styles(theme: &Theme) -> (state: HighlightState)
    ensures
        state == initial_styles(*theme),
{
    HighlightState::new(&Highlighter::new(theme), ScopeStack::new())
}

/// What `ParseState::parse_line` gives for a line: the parser state after
/// the line, and the changes of scope along the line, or nothing where the
/// line failed to parse.
pub uninterp spec fn parsed(parse: ParseState, line: Seq<char>, set: SyntaxSet) -> (
    ParseState,
    Option<Seq<(usize, ScopeStackOp)>>,
);

/// Whether a parser state was made for a grammar of the set and has since
/// been advanced over `steps` lines, each time with that set.
pub open spec fn started_in(parse: ParseState, set: SyntaxSet, steps: nat) -> bool
    decreases steps,
{
    if steps == 0 {
        exists|grammar: SyntaxReference|
            set_holds(set, grammar) && parse == #[trigger] initial_parse(grammar)
    } else {
        exists|prev: ParseState, line: Seq<char>|
            #![trigger parsed(prev, line, set)]
            started_in(prev, set, (steps - 1) as nat) && parsed(prev, line, set).0 == parse
    }
}

/// Whether a parser state belongs to the set: it was made for a grammar of
/// the set and advanced with no other set.
pub open spec fn parses_with(parse: ParseState, set: SyntaxSet) -> bool {
    exists|steps: nat| started_in(parse, set, steps)
}

/// A parser state made for a grammar of a set belongs to the set.
pub proof fn lemma_fresh_parses(set: SyntaxSet, grammar: SyntaxReference)
    requires
        set_holds(set, grammar),
    ensures
        parses_with(initial_parse(grammar), set),
{
    assert(started_in(initial_parse(grammar), set, 0));
}

/// A parser state that belongs to a set still does after a line.
pub proof fn lemma_step_parses(parse: ParseState, line: Seq<char>, set: SyntaxSet)
    requires
        parses_with(parse, set),
    ensures
        parses_with(parsed(parse, line, set).0, set),
{
    let steps = choose|steps: nat| started_in(parse, set, steps);
    assert(started_in(parsed(parse, line, set).0, set, steps + 1));
}

/// The changes of scope as plain values, where there are any.
pub open spec fn changes_of(ops: Option<Vec<(usize, ScopeStackOp)>>) -> Option<
    Seq<(usize, ScopeStackOp)>,
> {
    match ops {
        Some(found) => Some(found@),
        None => None,
    }
}

/// Tokenizes one line with `ParseState::parse_line` and advances the
/// parser state. The outcome depends on nothing but the state, the line and
/// the set, so it is named. `parse_line` asks that the set be the one that
/// held the grammar the parser state was made for, and compiles the set's
/// patterns when they are first used; it may panic otherwise: the
/// precondition admits only a loaded set that the state belongs to.
#[verifier::external_body]
fn parse_line(parse: &mut ParseState, line: &str, set: &SyntaxSet) -> (ops: Option<
    Vec<(usize, ScopeStackOp)>,
>)
    requires
        well_loaded(*set),
        parses_with(*old(parse), *set),
    ensures
        (*final(parse), changes_of(ops)) == parsed(*old(parse), line@, *set),
{
    parse.parse_line(line, set).ok()
}

/// Whether the changes of scope are those that parsing the line gave.
pub open spec fn changes_in(ops: Seq<(usize, ScopeStackOp)>, line: Seq<char>) -> bool {
    exists|parse: ParseState, set: SyntaxSet| (#[trigger] parsed(parse, line, set)).1 == Some(ops)
}

/// What `HighlightIterator` gives for a line and its changes of scope: the
/// style state after the line, and the styled pieces of the line in order,
/// each a colour with its text.
pub uninterp spec fn styled(
    styles: HighlightState,
    ops: Seq<(usize, ScopeStackOp)>,
    line: Seq<char>,
    theme: Theme,
) -> (HighlightState, Seq<(Rgb, Seq<char>)>);

/// Splits a line into styled pieces with `HighlightIterator::new` over a
/// `Highlighter` for the theme, and advances the style state. The outcome
/// depends on nothing but the state, the changes, the line and the theme,
/// so it is named. Of each piece the foreground colour and the text are
/// handed out. The iterator cuts the line at the places of the changes:
/// the precondition admits only changes that parsing this line gave.
#[verifier::external_body]
fn style_ops(
    styles: &mut HighlightState,
    ops: &Vec<(usize, ScopeStackOp)>,
    line: &str,
    theme: &Theme,
) -> (pieces: Vec<(Rgb, String)>)
    requires
        changes_in(ops@, line@),
    ensures
        (*final(styles), pieces.deep_view()) == styled(*old(styles), ops@, line@, *theme),
{
    let highlighter = Highlighter::new(theme);
    let pieces = HighlightIterator::new(styles, ops, line, &highlighter);
    pieces.map(|(style, text)| (
        Rgb { r: style.foreground.r, g: style.foreground.g, b: style.foreground.b },
        text.to_string(),
    )).collect()
}

/// What tokenizing and styling one line gives: the parser state and the
/// style state after the line, and the styled pieces of the line, or
/// nothing where the line failed to parse; the style state then stays as it
/// was.
pub open spec fn line_step(
    parse: ParseState,
    styles: HighlightState,
    line: Seq<char>,
    set: SyntaxSet,
    theme: Theme,
) -> (ParseState, HighlightState, Option<Seq<(Rgb, Seq<char>)>>) {
    let after = parsed(parse, line, set);
    match after.1 {
        Some(ops) => {
            let pieces = styled(styles, ops, line, theme);
            (after.0, pieces.0, Some(pieces.1))
        },
        None => (after.0, styles, None),
    }
}

/// Tokenizes and styles one line, and advances both states.
fn style_line(
    parse: &mut ParseState,
    styles: &mut HighlightState,
    line: &str,
    set: &SyntaxSet,
    theme: &Theme,
) -> (pieces: Option<Vec<(Rgb, String)>>)
    requires
        well_loaded(*set),
        parses_with(*old(parse), *set),
    ensures
        (*final(parse), *final(styles), pieces.deep_view()) == line_step(
            *old(parse),
            *old(styles),
            line@,
            *set,
            *theme,
        ),
{
    match parse_line(parse, line, set) {
        Some(ops) => {
            assert(parsed(*old(parse), line@, *set).1 == Some(ops@));
            Some(style_ops(styles, &ops, line, theme))
        },
        None => None,
    }
}

/// One colour per character of the pieces' texts.
pub open spec fn expanded(pieces: Seq<(Rgb, Seq<char>)>) -> Seq<Rgb>
    decreases pieces.len(),
{
    if pieces.len() == 0 {
        Seq::empty()
    } else {
        expanded(pieces.drop_last()) + Seq::new(
            pieces.last().1.len(),
            |k: int| pieces.last().0,
        )
    }
}

/// The colours of a line from the outcome of styling it with a line feed
/// appended: one per character, without the one for the line feed. A line
/// that failed to parse has none.
pub open spec fn colors_of(outcome: Option<Seq<(Rgb, Seq<char>)>>) -> Seq<Rgb> {
    match outcome {
        Some(pieces) => if expanded(pieces).len() > 0 {
            expanded(pieces).drop_last()
        } else {
            Seq::empty()
        },
        None => Seq::empty(),
    }
}

/// The colours of a line from the outcome of styling it: one colour per
/// character of every piece, without the last one, which stands for the
/// line feed. A line that failed to parse has none.
pub fn expand_colors(outcome: Option<Vec<(Rgb, String)>>) -> (colors: Vec<Rgb>)
    ensures
        colors@ == colors_of(outcome.deep_view()),
{
    let mut colors: Vec<Rgb> = Vec::new();
    match outcome {
        Some(pieces) => {
            let ghost all = pieces.deep_view();
            let mut p: usize = 0;
            assert(all.take(0) =~= Seq::<(Rgb, Seq<char>)>::empty());
            while p < pieces.len()
                invariant
                    p <= pieces.len(),
                    all == pieces.deep_view(),
                    colors@ == expanded(all.take(p as int)),
                decreases pieces.len() - p,
            {
                let color = pieces[p].0;
                let n = crate::text::char_count(pieces[p].1.as_str());
                let ghost before = colors@;
                let mut k: usize = 0;
                while k < n
                    invariant
                        k <= n,
                        colors@ == before + Seq::new(k as nat, |j: int| color),
                    decreases n - k,
                {
                    colors.push(color);
                    assert(Seq::new((k + 1) as nat, |j: int| color) =~= Seq::new(
                        k as nat,
                        |j: int| color,
                    ).push(color));
                    k += 1;
                }
                proof {
                    assert(all.take(p + 1).drop_last() =~= all.take(p as int));
                    assert(all.take(p + 1).last() == all[p as int]);
                    assert(all[p as int] == pieces[p as int].deep_view());
                    assert(Seq::new(n as nat, |j: int| color) =~= Seq::new(
                        all[p as int].1.len(),
                        |j: int| all[p as int].0,
                    ));
                }
                p += 1;
            }
            assert(all.take(p as int) =~= all);
            if colors.len() > 0 {
                colors.pop();
            }
        },
        None => {},
    }
    colors
}

/// Colours one line and advances the two states past it. The line is
/// tokenized with a line feed appended, so that scopes which end at the end
/// of the line are closed. The parser state must belong to the set, and
/// still does afterwards.
fn highlight_line_colors(
    line: &str,
    parse: &mut ParseState,
    styles: &mut HighlightState,
    set: &SyntaxSet,
    theme: &Theme,
) -> (colors: Vec<Rgb>)
    requires
        well_loaded(*set),
        parses_with(*old(parse), *set),
    ensures
        ({
            let s = line_step(*old(parse), *old(styles), line@.push('\n'), *set, *theme);
            &&& *final(parse) == s.0
            &&& *final(styles) == s.1
            &&& colors@ == colors_of(s.2)
        }),
        parses_with(*final(parse), *set),
{
    let mut with_nl = line.to_owned();
    with_nl.push('\n');
    proof {
        lemma_step_parses(*parse, with_nl@, *set);
    }
    expand_colors(style_line(parse, styles, with_nl.as_str(), set, theme))
}

/// The grammars and the theme that colouring works with.
pub struct SyntaxHighlighter {
    pub syntax_set: SyntaxSet,
    pub theme: Theme,
}

/// The text after the last full stop of a path; the whole path where it
/// holds none.
pub open spec fn extension_of(path: Seq<char>) -> Seq<char>
    decreases path.len(),
{
    if path.len() == 0 {
        path
    } else if path.last() == '.' {
        Seq::empty()
    } else if path.drop_last().contains('.') {
        extension_of(path.drop_last()).push(path.last())
    } else {
        path
    }
}

/// The first line that is no hunk header row and is not empty, from row
/// `from` on.
pub open spec fn first_content(lines: Seq<Seq<char>>, starts: Seq<usize>, from: int) -> Option<
    Seq<char>,
>
    decreases lines.len() - from,
{
    if from < 0 || from >= lines.len() {
        None
    } else if !starts.contains(from as usize) && lines[from].len() > 0 {
        Some(lines[from])
    } else {
        first_content(lines, starts, from + 1)
    }
}

/// Whether `starts` holds `row`.
pub fn is_hunk_start(starts: &Vec<usize>, row: usize) -> (r: bool)
    ensures
        r == starts@.contains(row),
{
    let mut k: usize = 0;
    while k < starts.len()
        invariant
            k <= starts.len(),
            forall|j: int| 0 <= j < k ==> starts@[j] != row,
        decreases starts.len() - k,
    {
        if starts[k] == row {
            return true;
        }
        k += 1;
    }
    false
}

/// The extension of a path.
pub fn extension(path: &str) -> (ext: String)
    ensures
        ext@ == extension_of(path@),
{
    let chars = chars_of(path);
    let mut cut: usize = 0;
    let mut k: usize = 0;
    assert(chars@.take(0) =~= Seq::<char>::empty());
    while k < chars.len()
        invariant
            k <= chars.len(),
            cut <= k,
            cut > 0 <==> chars@.take(k as int).contains('.'),
            extension_of(chars@.take(k as int)) == chars@.subrange(cut as int, k as int),
        decreases chars.len() - k,
    {
        let ghost prefix = chars@.take(k as int);
        let ghost next = chars@.take(k + 1);
        proof {
            assert(next.drop_last() =~= prefix);
            assert(next.last() == chars@[k as int]);
            assert(next =~= prefix.push(chars@[k as int]));
        }
        if chars[k] == '.' {
            cut = k + 1;
            assert(chars@.subrange(cut as int, k + 1) =~= Seq::<char>::empty());
            assert(next[k as int] == '.');
        } else {
            proof {
                if prefix.contains('.') {
                    let j = choose|j: int| 0 <= j < prefix.len() && prefix[j] == '.';
                    assert(next[j] == '.');
                    assert(chars@.subrange(cut as int, k + 1) =~= chars@.subrange(
                        cut as int,
                        k as int,
                    ).push(chars@[k as int]));
                } else {
                    assert(chars@.subrange(0, k + 1) =~= next);
                    if next.contains('.') {
                        let j = choose|j: int| 0 <= j < next.len() && next[j] == '.';
                        assert(prefix[j] == '.');
                    }
                }
            }
        }
        k += 1;
    }
    assert(chars@.take(k as int) =~= chars@);
    string_of_range(&chars, cut, chars.len())
}

/// The theme to colour with: the one that was asked for by its name where
/// it is there; failing that the first theme there is; failing that a theme
/// without rules.
pub open spec fn chosen_theme(named: Option<Theme>, first: Option<Theme>, plain: Theme) -> Theme {
    match named {
        Some(theme) => theme,
        None => match first {
            Some(theme) => theme,
            None => plain,
        },
    }
}

/// Picks the theme to colour with from what the bundled themes gave.
pub fn choose_theme(named: Option<Theme>, first: Option<Theme>, plain: Theme) -> (theme: Theme)
    ensures
        theme == chosen_theme(named, first, plain),
{
    match named {
        Some(theme) => theme,
        None => match first {
            Some(theme) => theme,
            None => plain,
        },
    }
}

impl SyntaxHighlighter {
    /// Whether the highlighter can be used: its set is one that syntect
    /// loaded and checked.
    pub open spec fn sound(self) -> bool {
        well_loaded(self.syntax_set)
    }

    /// A highlighter with the bundled grammars, a TOML grammar, and the
    /// dark "eighties" theme (or, failing that, the theme that
    /// `choose_theme` picks). Everything it holds is read from syntect's
    /// bundled data; its set is a loaded one.
    pub fn new() -> (hl: Self)
        ensures
            hl.sound(),
    {
        let syntax_set = with_grammar(bundled_syntaxes(), TOML_SYNTAX);
        let themes = bundled_themes();
        let theme = choose_theme(
            theme_named(&themes, "base16-eighties.dark"),
            first_theme(&themes),
            plain_theme(),
        );
        Self { syntax_set, theme }
    }

    /// The grammar for a file: the one for the path's extension; failing
    /// that, the one that recognises the given first line, unless that is
    /// the grammar for plain text.
    pub open spec fn grammar_for(self, path: Seq<char>, first_line: Option<Seq<char>>) -> Option<
        SyntaxReference,
    > {
        match grammar_by_extension(self.syntax_set, extension_of(path)) {
            Some(g) => Some(g),
            None => match first_line {
                Some(line) => match grammar_by_first_line(self.syntax_set, line) {
                    Some(g) => if grammar_name(g) != "Plain Text"@ {
                        Some(g)
                    } else {
                        None
                    },
                    None => None,
                },
                None => None,
            },
        }
    }

    /// A grammar found for a file is one of the highlighter's set.
    pub proof fn lemma_grammar_held(self, path: Seq<char>, first_line: Option<Seq<char>>)
        requires
            self.grammar_for(path, first_line) is Some,
        ensures
            set_holds(self.syntax_set, self.grammar_for(path, first_line)->0),
    {
        let found = self.grammar_for(path, first_line)->0;
        if grammar_by_extension(self.syntax_set, extension_of(path)) is Some {
            assert(grammar_by_extension(self.syntax_set, extension_of(path)) == Some(found));
        } else {
            assert(grammar_by_first_line(self.syntax_set, first_line->0) == Some(found));
        }
    }

    /// Finds the grammar for a file by its extension, then by its first line.
    pub fn find_syntax(&self, path: &str, first_line: Option<&str>) -> (r: Option<SyntaxReference>)
        requires
            self.sound(),
        ensures
            r == self.grammar_for(
                path@,
                match first_line {
                    Some(l) => Some(l@),
                    None => None,
                },
            ),
    {
        let ext = extension(path);
        match syntax_by_extension(&self.syntax_set, ext.as_str()) {
            Some(g) => Some(g),
            None => match first_line {
                Some(line) => match syntax_by_first_line(&self.syntax_set, line) {
                    Some(g) => {
                        let name = syntax_name(&g);
                        if !same_text(name.as_str(), "Plain Text") {
                            Some(g)
                        } else {
                            None
                        }
                    },
                    None => None,
                },
                None => None,
            },
        }
    }

    /// The tokenizer's two states before row `i` of a side: fresh at row 0
    /// and after every hunk header row, otherwise advanced past row `i - 1`.
    pub open spec fn state_before(
        self,
        grammar: SyntaxReference,
        lines: Seq<Seq<char>>,
        starts: Seq<usize>,
        i: int,
    ) -> (ParseState, HighlightState)
        decreases i,
    {
        if i <= 0 || starts.contains((i - 1) as usize) {
            (initial_parse(grammar), initial_styles(self.theme))
        } else {
            let prev = self.state_before(grammar, lines, starts, i - 1);
            let s = line_step(prev.0, prev.1, lines[i - 1].push('\n'), self.syntax_set, self.theme);
            (s.0, s.1)
        }
    }

    /// The parser state before any row belongs to the highlighter's set.
    pub proof fn lemma_state_parses(
        self,
        grammar: SyntaxReference,
        lines: Seq<Seq<char>>,
        starts: Seq<usize>,
        i: int,
    )
        requires
            set_holds(self.syntax_set, grammar),
        ensures
            parses_with(self.state_before(grammar, lines, starts, i).0, self.syntax_set),
        decreases i,
    {
        if i <= 0 || starts.contains((i - 1) as usize) {
            lemma_fresh_parses(self.syntax_set, grammar);
        } else {
            self.lemma_state_parses(grammar, lines, starts, i - 1);
            let prev = self.state_before(grammar, lines, starts, i - 1);
            lemma_step_parses(prev.0, lines[i - 1].push('\n'), self.syntax_set);
        }
    }

    /// The colours of row `i` of a side: none for a hunk header row,
    /// otherwise what the tokenizer gives for the line in the state it has
    /// reached.
    pub open spec fn row_colors(
        self,
        grammar: SyntaxReference,
        lines: Seq<Seq<char>>,
        starts: Seq<usize>,
        i: int,
    ) -> Seq<Rgb> {
        if starts.contains(i as usize) {
            Seq::empty()
        } else {
            let prev = self.state_before(grammar, lines, starts, i);
            colors_of(
                line_step(prev.0, prev.1, lines[i].push('\n'), self.syntax_set, self.theme).2,
            )
        }
    }

    /// The colours of the first `n` rows of a side.
    pub open spec fn colors_upto(
        self,
        grammar: SyntaxReference,
        lines: Seq<Seq<char>>,
        starts: Seq<usize>,
        n: int,
    ) -> Seq<Seq<Rgb>> {
        Seq::new(n as nat, |i: int| self.row_colors(grammar, lines, starts, i))
    }

    /// Colours the rows of one side from where `colors` ends up to `target`.
    fn advance(
        &self,
        grammar: &SyntaxReference,
        lines: &Vec<String>,
        starts: &Vec<usize>,
        parse: &mut ParseState,
        styles: &mut HighlightState,
        colors: &mut Vec<Vec<Rgb>>,
        target: usize,
    )
        requires
            self.sound(),
            set_holds(self.syntax_set, *grammar),
            old(colors).len() <= target <= lines.len(),
            old(colors).deep_view() == self.colors_upto(
                *grammar,
                lines.deep_view(),
                starts@,
                old(colors).len() as int,
            ),
            (*old(parse), *old(styles)) == self.state_before(
                *grammar,
                lines.deep_view(),
                starts@,
                old(colors).len() as int,
            ),
        ensures
            final(colors).len() == target,
            final(colors).deep_view() == self.colors_upto(
                *grammar,
                lines.deep_view(),
                starts@,
                target as int,
            ),
            (*final(parse), *final(styles)) == self.state_before(
                *grammar,
                lines.deep_view(),
                starts@,
                target as int,
            ),
    {
        let ghost view = lines.deep_view();
        let mut i: usize = colors.len();
        while i < target
            invariant
                self.sound(),
                set_holds(self.syntax_set, *grammar),
                i <= target <= lines.len(),
                view == lines.deep_view(),
                colors.len() == i,
                colors.deep_view() == self.colors_upto(*grammar, view, starts@, i as int),
                (*parse, *styles) == self.state_before(*grammar, view, starts@, i as int),
            decreases target - i,
        {
            let ghost before = colors.deep_view();
            let row: Vec<Rgb> = if is_hunk_start(starts, i) {
                *parse = fresh_parse(grammar);
                *styles = fresh_styles(&self.theme);
                Vec::new()
            } else {
                assert(view[i as int] == lines[i as int]@);
                proof {
                    self.lemma_state_parses(*grammar, view, starts@, i as int);
                }
                highlight_line_colors(lines[i].as_str(), parse, styles, &self.syntax_set, &self.theme)
            };
            assert(row.deep_view() =~= row@);
            assert(row@ =~= self.row_colors(*grammar, view, starts@, i as int));
            colors.push(row);
            assert(colors.deep_view() =~= before.push(row.deep_view()));
            assert(self.colors_upto(*grammar, view, starts@, i + 1) =~= self.colors_upto(
                *grammar,
                view,
                starts@,
                i as int,
            ).push(self.row_colors(*grammar, view, starts@, i as int)));
            i += 1;
        }
    }
}

/// What colouring on demand needs to go on where it stopped: the grammar,
/// the tokenizer's states on both sides, the lines, and the rows at which
/// hunks start.
pub struct IncrementalState {
    pub grammar: SyntaxReference,
    pub left_parse_state: ParseState,
    pub left_highlight_state: HighlightState,
    pub right_parse_state: ParseState,
    pub right_highlight_state: HighlightState,
    pub left_lines: Vec<String>,
    pub right_lines: Vec<String>,
    /// Rows at which a hunk starts: the tokenizer starts afresh there.
    pub hunk_starts: Vec<usize>,
}

/// The colours of one file, one per character, by display row and side.
pub struct HighlightCache {
    pub file_path: String,
    pub left_colors: Vec<Vec<Rgb>>,
    pub right_colors: Vec<Vec<Rgb>>,
    /// How many rows have been coloured so far.
    pub processed_up_to: usize,
    /// Present while colouring goes on demand; absent for colours that were
    /// computed beforehand.
    pub incremental: Option<IncrementalState>,
}

impl IncrementalState {
    /// The number of rows that can be coloured: the rows both sides have.
    pub open spec fn row_count(self) -> int {
        if self.left_lines.len() <= self.right_lines.len() {
            self.left_lines.len() as int
        } else {
            self.right_lines.len() as int
        }
    }
}

impl HighlightCache {
    /// The cache is consistent with the highlighter `hl`: the grammar is
    /// one of the highlighter's set, the rows coloured so far are the first
    /// `processed_up_to` rows, each with the colours the tokenizer gives it,
    /// and the tokenizer's states are those before the next row.
    pub open spec fn wf(self, hl: SyntaxHighlighter) -> bool {
        &&& self.processed_up_to == self.left_colors.len()
        &&& match self.incremental {
            None => true,
            Some(inc) => {
                let left = inc.left_lines.deep_view();
                let right = inc.right_lines.deep_view();
                let n = self.processed_up_to as int;
                &&& set_holds(hl.syntax_set, inc.grammar)
                &&& n <= inc.row_count()
                &&& self.right_colors.len() == n
                &&& self.left_colors.deep_view() == hl.colors_upto(
                    inc.grammar,
                    left,
                    inc.hunk_starts@,
                    n,
                )
                &&& self.right_colors.deep_view() == hl.colors_upto(
                    inc.grammar,
                    right,
                    inc.hunk_starts@,
                    n,
                )
                &&& (inc.left_parse_state, inc.left_highlight_state) == hl.state_before(
                    inc.grammar,
                    left,
                    inc.hunk_starts@,
                    n,
                )
                &&& (inc.right_parse_state, inc.right_highlight_state) == hl.state_before(
                    inc.grammar,
                    right,
                    inc.hunk_starts@,
                    n,
                )
            },
        }
    }

    /// The row count that extending to `up_to` reaches: never less than
    /// what is processed, never more than the rows there are.
    pub open spec fn reach(self, up_to: usize) -> int {
        match self.incremental {
            None => self.processed_up_to as int,
            Some(inc) => {
                let target = if up_to <= inc.row_count() {
                    up_to as int
                } else {
                    inc.row_count()
                };
                if self.processed_up_to >= target {
                    self.processed_up_to as int
                } else {
                    target
                }
            },
        }
    }

    /// How the cache after `extend_cache(.., up_to)` relates to the cache
    /// before it: the file, the lines, the hunk starts and the grammar stay;
    /// precomputed colours stay as they are; otherwise the processed rows
    /// grow to `reach(up_to)`.
    pub open spec fn extended_to(self, after: HighlightCache, up_to: usize) -> bool {
        &&& after.file_path == self.file_path
        &&& after.processed_up_to == self.reach(up_to)
        &&& match self.incremental {
            None => after.incremental is None && after.left_colors == self.left_colors
                && after.right_colors == self.right_colors,
            Some(inc) => {
                &&& after.incremental is Some
                &&& after.incremental->0.grammar == inc.grammar
                &&& after.incremental->0.left_lines == inc.left_lines
                &&& after.incremental->0.right_lines == inc.right_lines
                &&& after.incremental->0.hunk_starts == inc.hunk_starts
            },
        }
    }

    /// Makes a cache from colours that were computed beforehand.
    pub fn from_precomputed(
        file_path: String,
        left_colors: Vec<Vec<Rgb>>,
        right_colors: Vec<Vec<Rgb>>,
    ) -> (cache: Self)
        ensures
            cache.file_path == file_path,
            cache.left_colors == left_colors,
            cache.right_colors == right_colors,
            cache.processed_up_to == left_colors.len(),
            cache.incremental is None,
            forall|hl: SyntaxHighlighter| cache.wf(hl),
    {
        let processed = left_colors.len();
        Self { file_path, left_colors, right_colors, processed_up_to: processed, incremental: None }
    }
}

fn first_content_line(lines: &Vec<String>, starts: &Vec<usize>) -> (r: Option<usize>)
    ensures
        match r {
            Some(i) => i < lines.len() && first_content(lines.deep_view(), starts@, 0) == Some(
                lines[i as int]@,
            ),
            None => first_content(lines.deep_view(), starts@, 0) is None,
        },
{
    let ghost view = lines.deep_view();
    let mut i: usize = 0;
    while i < lines.len()
        invariant
            i <= lines.len(),
            view == lines.deep_view(),
            first_content(view, starts@, 0) == first_content(view, starts@, i as int),
        decreases lines.len() - i,
    {
        assert(view[i as int] == lines[i as int]@);
        if !is_hunk_start(starts, i) && !lines[i].as_str().is_empty() {
            return Some(i);
        }
        i += 1;
    }
    None
}

impl SyntaxHighlighter {
    /// The grammar for a file with the given left-side lines.
    pub open spec fn file_grammar(
        self,
        path: Seq<char>,
        left_lines: Seq<Seq<char>>,
        starts: Seq<usize>,
    ) -> Option<SyntaxReference> {
        self.grammar_for(path, first_content(left_lines, starts, 0))
    }

    fn grammar_of_file(&self, file_path: &str, left_lines: &Vec<String>, starts: &Vec<usize>) -> (r:
        Option<SyntaxReference>)
        requires
            self.sound(),
        ensures
            r == self.file_grammar(file_path@, left_lines.deep_view(), starts@),
            r matches Some(grammar) ==> set_holds(self.syntax_set, grammar),
    {
        proof {
            let first = first_content(left_lines.deep_view(), starts@, 0);
            if self.grammar_for(file_path@, first) is Some {
                self.lemma_grammar_held(file_path@, first);
            }
        }
        match first_content_line(left_lines, starts) {
            Some(i) => self.find_syntax(file_path, Some(left_lines[i].as_str())),
            None => self.find_syntax(file_path, None),
        }
    }

    /// Makes a cache for a file, with no row coloured yet. There is none
    /// exactly where no grammar matches the file.
    pub fn create_cache(
        &self,
        file_path: &str,
        left_lines: Vec<String>,
        right_lines: Vec<String>,
        hunk_starts: Vec<usize>,
    ) -> (r: Option<HighlightCache>)
        requires
            self.sound(),
        ensures
            r is Some <==> self.file_grammar(file_path@, left_lines.deep_view(), hunk_starts@)
                is Some,
            r matches Some(cache) ==> {
                &&& cache.wf(*self)
                &&& cache.file_path@ == file_path@
                &&& cache.processed_up_to == 0
                &&& cache.left_colors@.len() == 0
                &&& cache.right_colors@.len() == 0
                &&& cache.incremental is Some
                &&& Some(cache.incremental->0.grammar) == self.file_grammar(
                    file_path@,
                    left_lines.deep_view(),
                    hunk_starts@,
                )
                &&& cache.incremental->0.left_lines == left_lines
                &&& cache.incremental->0.right_lines == right_lines
                &&& cache.incremental->0.hunk_starts == hunk_starts
            },
    {
        let grammar = match self.grammar_of_file(file_path, &left_lines, &hunk_starts) {
            Some(g) => g,
            None => {
                return None;
            },
        };
        let left_parse_state = fresh_parse(&grammar);
        let right_parse_state = fresh_parse(&grammar);
        let cache = HighlightCache {
            file_path: file_path.to_owned(),
            left_colors: Vec::new(),
            right_colors: Vec::new(),
            processed_up_to: 0,
            incremental: Some(
                IncrementalState {
                    grammar,
                    left_parse_state,
                    left_highlight_state: fresh_styles(&self.theme),
                    right_parse_state,
                    right_highlight_state: fresh_styles(&self.theme),
                    left_lines,
                    right_lines,
                    hunk_starts,
                },
            ),
        };
        proof {
            let inc = cache.incremental->0;
            assert(cache.left_colors.deep_view() =~= self.colors_upto(
                inc.grammar,
                inc.left_lines.deep_view(),
                inc.hunk_starts@,
                0,
            ));
            assert(cache.right_colors.deep_view() =~= self.colors_upto(
                inc.grammar,
                inc.right_lines.deep_view(),
                inc.hunk_starts@,
                0,
            ));
        }
        Some(cache)
    }

    /// Extends the cache so that it covers the rows below `up_to`, as far as
    /// there are rows. Only rows not yet coloured are worked on; a smaller
    /// or equal bound changes nothing, and neither does any bound on
    /// precomputed colours.
    pub fn extend_cache(&self, cache: &mut HighlightCache, up_to: usize)
        requires
            self.sound(),
            old(cache).wf(*self),
        ensures
            final(cache).wf(*self),
            old(cache).extended_to(*final(cache), up_to),
            old(cache).reach(up_to) == old(cache).processed_up_to ==> *final(cache) == *old(cache),
    {
        let mut inc = match cache.incremental.take() {
            Some(inc) => inc,
            None => {
                return;
            },
        };
        let rows = if inc.left_lines.len() <= inc.right_lines.len() {
            inc.left_lines.len()
        } else {
            inc.right_lines.len()
        };
        let target = if up_to <= rows {
            up_to
        } else {
            rows
        };
        if cache.processed_up_to >= target {
            cache.incremental = Some(inc);
            return;
        }
        self.advance(
            &inc.grammar,
            &inc.left_lines,
            &inc.hunk_starts,
            &mut inc.left_parse_state,
            &mut inc.left_highlight_state,
            &mut cache.left_colors,
            target,
        );
        self.advance(
            &inc.grammar,
            &inc.right_lines,
            &inc.hunk_starts,
            &mut inc.right_parse_state,
            &mut inc.right_highlight_state,
            &mut cache.right_colors,
            target,
        );
        cache.processed_up_to = target;
        cache.incremental = Some(inc);
    }

    /// Colours all rows of a file at once, on both sides: the rows that both
    /// sides have. There is no result exactly where no grammar matches.
    pub fn highlight_all_lines(
        &self,
        file_path: &str,
        left_lines: &Vec<String>,
        right_lines: &Vec<String>,
        hunk_starts: &Vec<usize>,
    ) -> (r: Option<(Vec<Vec<Rgb>>, Vec<Vec<Rgb>>)>)
        requires
            self.sound(),
        ensures
            r is Some <==> self.file_grammar(file_path@, left_lines.deep_view(), hunk_starts@)
                is Some,
            r matches Some(colors) ==> {
                let grammar = self.file_grammar(
                    file_path@,
                    left_lines.deep_view(),
                    hunk_starts@,
                )->0;
                let n = if left_lines.len() <= right_lines.len() {
                    left_lines.len() as int
                } else {
                    right_lines.len() as int
                };
                &&& colors.0.deep_view() == self.colors_upto(
                    grammar,
                    left_lines.deep_view(),
                    hunk_starts@,
                    n,
                )
                &&& colors.1.deep_view() == self.colors_upto(
                    grammar,
                    right_lines.deep_view(),
                    hunk_starts@,
                    n,
                )
            },
    {
        let grammar = match self.grammar_of_file(file_path, left_lines, hunk_starts) {
            Some(g) => g,
            None => {
                return None;
            },
        };
        let rows = if left_lines.len() <= right_lines.len() {
            left_lines.len()
        } else {
            right_lines.len()
        };
        let mut left_colors: Vec<Vec<Rgb>> = Vec::new();
        let mut right_colors: Vec<Vec<Rgb>> = Vec::new();
        let mut parse = fresh_parse(&grammar);
        let mut styles = fresh_styles(&self.theme);
        assert(left_colors.deep_view() =~= self.colors_upto(
            grammar,
            left_lines.deep_view(),
            hunk_starts@,
            0,
        ));
        self.advance(
            &grammar,
            left_lines,
            hunk_starts,
            &mut parse,
            &mut styles,
            &mut left_colors,
            rows,
        );
        parse = fresh_parse(&grammar);
        styles = fresh_styles(&self.theme);
        assert(right_colors.deep_view() =~= self.colors_upto(
            grammar,
            right_lines.deep_view(),
            hunk_starts@,
            0,
        ));
        self.advance(
            &grammar,
            right_lines,
            hunk_starts,
            &mut parse,
            &mut styles,
            &mut right_colors,
            rows,
        );
        Some((left_colors, right_colors))
    }
}

/// Extending is idempotent: a second extension to the same bound leaves
/// the processed row count and all colours as the first one left them.
pub proof fn lemma_extend_idempotent(
    hl: SyntaxHighlighter,
    before: HighlightCache,
    once: HighlightCache,
    twice: HighlightCache,
    up_to: usize,
)
    requires
        before.wf(hl),
        once.wf(hl),
        twice.wf(hl),
        before.extended_to(once, up_to),
        once.extended_to(twice, up_to),
    ensures
        twice.processed_up_to == once.processed_up_to,
        twice.left_colors.deep_view() == once.left_colors.deep_view(),
        twice.right_colors.deep_view() == once.right_colors.deep_view(),
{
}

/// Extending is monotonic: an extension never lowers the processed row
/// count, leaves the colours of the rows processed before as they were, and
/// only appends rows behind them.
pub proof fn lemma_extend_monotonic(
    hl: SyntaxHighlighter,
    before: HighlightCache,
    after: HighlightCache,
    up_to: usize,
)
    requires
        before.wf(hl),
        after.wf(hl),
        before.extended_to(after, up_to),
    ensures
        after.processed_up_to >= before.processed_up_to,
        after.left_colors.deep_view().take(before.processed_up_to as int)
            == before.left_colors.deep_view(),
        before.incremental is Some ==> after.right_colors.deep_view().take(
            before.processed_up_to as int,
        ) == before.right_colors.deep_view(),
        before.incremental is None ==> after.right_colors == before.right_colors,
{
    match before.incremental {
        None => {
            assert(after.left_colors.deep_view().take(before.processed_up_to as int)
                =~= before.left_colors.deep_view());
        },
        Some(inc) => {
            assert(after.left_colors.deep_view().take(before.processed_up_to as int)
                =~= before.left_colors.deep_view());
            assert(after.right_colors.deep_view().take(before.processed_up_to as int)
                =~= before.right_colors.deep_view());
        },
    }
}

/// Colouring on demand and colouring all at once agree: a cache that has
/// been extended over all its rows holds, row for row, the colours that
/// `highlight_all_lines` computes for the same file.
pub proof fn lemma_incremental_matches_eager(
    hl: SyntaxHighlighter,
    cache: HighlightCache,
    eager: (Vec<Vec<Rgb>>, Vec<Vec<Rgb>>),
)
    requires
        cache.wf(hl),
        cache.incremental is Some,
        cache.processed_up_to == cache.incremental->0.row_count(),
        eager.0.deep_view() == hl.colors_upto(
            cache.incremental->0.grammar,
            cache.incremental->0.left_lines.deep_view(),
            cache.incremental->0.hunk_starts@,
            cache.incremental->0.row_count(),
        ),
        eager.1.deep_view() == hl.colors_upto(
            cache.incremental->0.grammar,
            cache.incremental->0.right_lines.deep_view(),
            cache.incremental->0.hunk_starts@,
            cache.incremental->0.row_count(),
        ),
    ensures
        cache.left_colors.deep_view() == eager.0.deep_view(),
        cache.right_colors.deep_view() == eager.1.deep_view(),
{
}

/// Hunk-boundary reset: nothing of the tokenizer's state passes from one
/// hunk into the next. The colours of a row, and the state behind it, are
/// those of colouring the row's own hunk alone: the lines from the hunk's
/// header row `start` on, with a hunk start at their row 0 only.
pub proof fn lemma_hunk_isolated(
    hl: SyntaxHighlighter,
    grammar: SyntaxReference,
    lines: Seq<Seq<char>>,
    starts: Seq<usize>,
    start: int,
    row: int,
)
    requires
        0 <= start <= row < lines.len() <= usize::MAX,
        starts.contains(start as usize),
        forall|k: int| 0 <= k < starts.len() ==> !(start < #[trigger] starts[k] <= row),
    ensures
        hl.row_colors(grammar, lines, starts, row) == hl.row_colors(
            grammar,
            lines.subrange(start, lines.len() as int),
            seq![0usize],
            row - start,
        ),
        hl.state_before(grammar, lines, starts, row + 1) == hl.state_before(
            grammar,
            lines.subrange(start, lines.len() as int),
            seq![0usize],
            row + 1 - start,
        ),
    decreases row - start,
{
    let alone = lines.subrange(start, lines.len() as int);
    let only = seq![0usize];
    assert(only[0] == 0usize);
    if row == start {
        assert(only.contains(0usize));
    } else {
        lemma_hunk_isolated(hl, grammar, lines, starts, start, row - 1);
        assert(alone[row - start] == lines[row]);
        assert(!only.contains((row - start) as usize));
        assert(!starts.contains(row as usize));
    }
}

} // verus!
