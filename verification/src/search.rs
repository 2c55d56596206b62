//! Search: the state of the search prompt with its history, substring
//! matching without regard to case, and cyclic navigation over the matches.
//! A line of the diff is matched in its folded form, character by
//! character, and every match is reported by the characters of the line
//! that it covers, so that the cursor can be placed on them.

use crate::cursor::DiffSide;
use crate::diff::{flat_len, flattened, FileDiff, HunkView, RowView};
use crate::text::{chars_of, lowercase};
use vstd::arithmetic::div_mod::{
    lemma_add_mod_noop, lemma_mod_add_multiples_vanish, lemma_small_mod,
};
use vstd::prelude::*;

verus! {

/// The pane that a search started from.
#[derive(Debug, Clone, Copy, PartialEq, Eq, Structural)]
pub enum SearchOrigin {
    DiffView,
    FileTree,
    CommitLog,
    BranchList,
    Reflog,
}

/// One search hit. Only a hit in the diff carries column bounds: the first
/// column of the match and the column after its last.
#[derive(Debug, Clone, Copy, PartialEq, Eq, Structural)]
pub enum SearchMatch {
    DiffLine { row: usize, col_start: usize, col_end: usize, side: DiffSide },
    TreeEntry(usize),
    CommitEntry(usize),
    BranchEntry(usize),
    ReflogEntry(usize),
}

/// The state of the search: the prompt, the active query with its matches, and
/// the history.
#[derive(Debug)]
pub struct SearchState {
    pub active: bool,
    pub input: String,
    pub query: Option<String>,
    pub origin: SearchOrigin,
    pub matches: Vec<SearchMatch>,
    pub current_match_idx: Option<usize>,
    /// The last confirmed query, kept when the highlights are cleared.
    pub last_query: Option<String>,
    /// Confirmed queries, oldest first.
    pub history: Vec<String>,
    /// The history entry shown in the prompt, if the user is browsing.
    pub history_idx: Option<usize>,
    /// What the user had typed before browsing the history.
    pub saved_input: String,
}

/// The state of the search as plain values.
pub struct SearchStateView {
    pub active: bool,
    pub input: Seq<char>,
    pub query: Option<Seq<char>>,
    pub origin: SearchOrigin,
    pub matches: Seq<SearchMatch>,
    pub current_match_idx: Option<usize>,
    pub last_query: Option<Seq<char>>,
    pub history: Seq<Seq<char>>,
    pub history_idx: Option<usize>,
    pub saved_input: Seq<char>,
}

impl DeepView for SearchState {
    type V = SearchStateView;

    open spec fn deep_view(&self) -> SearchStateView {
        SearchStateView {
            active: self.active,
            input: self.input@,
            query: self.query.deep_view(),
            origin: self.origin,
            matches: self.matches@,
            current_match_idx: self.current_match_idx,
            last_query: self.last_query.deep_view(),
            history: self.history.deep_view(),
            history_idx: self.history_idx,
            saved_input: self.saved_input@,
        }
    }
}

impl SearchStateView {
    /// The state before any search.
    pub open spec fn initial() -> SearchStateView {
        SearchStateView {
            active: false,
            input: Seq::empty(),
            query: None,
            origin: SearchOrigin::DiffView,
            matches: Seq::empty(),
            current_match_idx: None,
            last_query: None,
            history: Seq::empty(),
            history_idx: None,
            saved_input: Seq::empty(),
        }
    }

    /// Opening the prompt for `origin`: everything but the last query and
    /// the history starts afresh.
    pub open spec fn started(self, origin: SearchOrigin) -> SearchStateView {
        SearchStateView {
            active: true,
            input: Seq::empty(),
            query: None,
            origin,
            matches: Seq::empty(),
            current_match_idx: None,
            history_idx: None,
            saved_input: Seq::empty(),
            ..self
        }
    }

    /// The state with no matches and none current.
    pub open spec fn without_matches(self) -> SearchStateView {
        SearchStateView { matches: Seq::empty(), current_match_idx: None, ..self }
    }

    /// Clearing the highlights: an active query becomes the last query.
    pub open spec fn cleared(self) -> SearchStateView {
        SearchStateView {
            active: false,
            input: Seq::empty(),
            query: None,
            last_query: if self.query is Some {
                self.query
            } else {
                self.last_query
            },
            matches: Seq::empty(),
            current_match_idx: None,
            ..self
        }
    }

    /// One step back in the history. The first step saves what was typed
    /// and shows the newest entry; at the oldest entry nothing changes.
    pub open spec fn history_back(self) -> SearchStateView {
        if self.history.len() == 0 {
            self
        } else {
            match self.history_idx {
                None => SearchStateView {
                    saved_input: self.input,
                    history_idx: Some((self.history.len() - 1) as usize),
                    input: self.history.last(),
                    ..self
                },
                Some(idx) => if 0 < idx <= self.history.len() {
                    SearchStateView {
                        history_idx: Some((idx - 1) as usize),
                        input: self.history[idx - 1],
                        ..self
                    }
                } else {
                    self
                },
            }
        }
    }

    /// One step forward in the history. Past the newest entry the saved
    /// input comes back.
    pub open spec fn history_forward(self) -> SearchStateView {
        match self.history_idx {
            Some(idx) => if idx + 1 < self.history.len() {
                SearchStateView {
                    history_idx: Some((idx + 1) as usize),
                    input: self.history[idx + 1],
                    ..self
                }
            } else {
                SearchStateView { history_idx: None, input: self.saved_input, ..self }
            },
            None => self,
        }
    }

    /// Recording a confirmed query: an empty one is not recorded, nor one
    /// equal to the newest entry.
    pub open spec fn with_history(self, query: Seq<char>) -> SearchStateView {
        if query.len() == 0 || (self.history.len() > 0 && self.history.last() == query) {
            self
        } else {
            SearchStateView { history: self.history.push(query), ..self }
        }
    }
}

impl SearchState {
    /// The state before any search.
    pub fn new() -> (s: Self)
        ensures
            s.deep_view() == SearchStateView::initial(),
    {
        let s = Self {
            active: false,
            input: String::new(),
            query: None,
            origin: SearchOrigin::DiffView,
            matches: Vec::new(),
            current_match_idx: None,
            last_query: None,
            history: Vec::new(),
            history_idx: None,
            saved_input: String::new(),
        };
        assert(s.history.deep_view() =~= Seq::<Seq<char>>::empty());
        s
    }

    /// Opens the prompt for a search in the given pane.
    pub fn start(&mut self, origin: SearchOrigin)
        ensures
            final(self).deep_view() == old(self).deep_view().started(origin),
    {
        self.active = true;
        self.input = String::new();
        self.query = None;
        self.origin = origin;
        self.matches = Vec::new();
        self.current_match_idx = None;
        self.history_idx = None;
        self.saved_input = String::new();
    }

    /// Drops the matches and keeps the query.
    pub fn reset_matches(&mut self)
        ensures
            final(self).deep_view() == old(self).deep_view().without_matches(),
    {
        self.matches = Vec::new();
        self.current_match_idx = None;
    }

    /// Clears the highlights but keeps the last query and the history.
    pub fn clear(&mut self)
        ensures
            final(self).deep_view() == old(self).deep_view().cleared(),
    {
        self.active = false;
        self.input = String::new();
        if self.query.is_some() {
            self.last_query = self.query.take();
        }
        self.matches = Vec::new();
        self.current_match_idx = None;
    }

    /// Shows the previous history entry in the prompt.
    pub fn history_prev(&mut self)
        ensures
            final(self).deep_view() == old(self).deep_view().history_back(),
    {
        let len = self.history.len();
        if len == 0 {
            return;
        }
        match self.history_idx {
            None => {
                self.saved_input = self.input.clone();
                let idx = len - 1;
                self.history_idx = Some(idx);
                self.input = self.history[idx].clone();
                assert(self.history.deep_view().last() == self.history[idx as int]@);
            },
            Some(idx) => {
                if idx > 0 && idx <= len {
                    let new_idx = idx - 1;
                    self.history_idx = Some(new_idx);
                    self.input = self.history[new_idx].clone();
                    assert(self.history.deep_view()[new_idx as int] == self.history[new_idx as int]@);
                }
            },
        }
    }

    /// Shows the next history entry, or what was typed before browsing.
    pub fn history_next(&mut self)
        ensures
            final(self).deep_view() == old(self).deep_view().history_forward(),
    {
        assert(self.history.deep_view().len() == self.history.len());
        match self.history_idx {
            Some(idx) => {
                if idx < usize::MAX && idx + 1 < self.history.len() {
                    let new_idx = idx + 1;
                    self.history_idx = Some(new_idx);
                    self.input = self.history[new_idx].clone();
                    assert(self.history.deep_view()[new_idx as int] == self.history[new_idx as int]@);
                } else {
                    self.history_idx = None;
                    self.input = self.saved_input.clone();
                }
            },
            None => {},
        }
    }

    /// Adds a confirmed query to the history.
    pub fn push_history(&mut self, query: &str)
        ensures
            final(self).deep_view() == old(self).deep_view().with_history(query@),
    {
        if query.is_empty() {
            return;
        }
        let len = self.history.len();
        let same = if len > 0 {
            assert(self.history.deep_view().last() == self.history[len - 1]@);
            crate::text::same_text(self.history[len - 1].as_str(), query)
        } else {
            false
        };
        if !same {
            let ghost before = self.history.deep_view();
            let owned = query.to_owned();
            self.history.push(owned);
            assert(self.history.deep_view() =~= before.push(query@));
        }
    }
}

/// Whether `needle` stands in `hay` at index `i`.
pub open spec fn matches_at(hay: Seq<char>, needle: Seq<char>, i: int) -> bool {
    0 <= i && i + needle.len() <= hay.len() && hay.subrange(i, i + needle.len()) == needle
}

/// The start indices of the matches of `needle` in `hay` from `from` on,
/// leftmost first and without overlap: after a match the scan goes on
/// behind it. The empty needle matches once at every index, the end included.
pub open spec fn match_starts(hay: Seq<char>, needle: Seq<char>, from: int) -> Seq<int>
    decreases hay.len() - from + 1,
{
    if from < 0 || from + needle.len() > hay.len() {
        Seq::empty()
    } else if matches_at(hay, needle, from) {
        seq![from] + match_starts(
            hay,
            needle,
            from + if needle.len() > 0 {
                needle.len() as int
            } else {
                1
            },
        )
    } else {
        match_starts(hay, needle, from + 1)
    }
}

/// Whether `needle` occurs somewhere in `hay`.
pub open spec fn occurs_in(hay: Seq<char>, needle: Seq<char>) -> bool {
    exists|i: int| matches_at(hay, needle, i)
}

fn match_here(hay: &Vec<char>, needle: &Vec<char>, at: usize) -> (r: bool)
    requires
        at + needle.len() <= hay.len(),
    ensures
        r == matches_at(hay@, needle@, at as int),
{
    let mut k: usize = 0;
    while k < needle.len()
        invariant
            k <= needle.len(),
            at + needle.len() <= hay.len(),
            hay@.subrange(at as int, at + k) == needle@.take(k as int),
        decreases needle.len() - k,
    {
        if hay[at + k] != needle[k] {
            assert(hay@.subrange(at as int, at + needle.len())[k as int] != needle@[k as int]);
            return false;
        }
        assert(hay@.subrange(at as int, at + k + 1) =~= hay@.subrange(at as int, at + k).push(
            hay@[at + k],
        ));
        assert(needle@.take(k + 1) =~= needle@.take(k as int).push(needle@[k as int]));
        k += 1;
    }
    assert(needle@.take(k as int) =~= needle@);
    true
}

/// Finds all matches of `needle` in `hay`, leftmost first, without overlap.
pub fn find_matches(hay: &Vec<char>, needle: &Vec<char>) -> (starts: Vec<usize>)
    ensures
        starts@.len() == match_starts(hay@, needle@, 0).len(),
        forall|k: int| 0 <= k < starts@.len() ==> starts@[k] == match_starts(hay@, needle@, 0)[k],
        forall|k: int| 0 <= k < starts@.len() ==> starts@[k] + needle.len() <= hay.len(),
{
    let mut starts: Vec<usize> = Vec::new();
    if needle.len() > hay.len() {
        return starts;
    }
    let last = hay.len() - needle.len();
    let step = if needle.len() > 0 {
        needle.len()
    } else {
        1
    };
    let ghost all = match_starts(hay@, needle@, 0);
    let mut i: usize = 0;
    let mut done = false;
    while !done
        invariant
            last == hay.len() - needle.len(),
            step == if needle.len() > 0 {
                needle.len()
            } else {
                1
            },
            all == match_starts(hay@, needle@, 0),
            !done ==> i <= last,
            !done ==> all =~= Seq::new(starts@.len(), |k: int| starts@[k] as int) + match_starts(
                hay@,
                needle@,
                i as int,
            ),
            done ==> all =~= Seq::new(starts@.len(), |k: int| starts@[k] as int),
            forall|k: int| 0 <= k < starts@.len() ==> starts@[k] + needle.len() <= hay.len(),
        decreases
                if done {
                    0
                } else {
                    last - i + 1
                },
    {
        let ghost found = Seq::new(starts@.len(), |k: int| starts@[k] as int);
        let next: usize;
        if match_here(hay, needle, i) {
            starts.push(i);
            assert(Seq::new(starts@.len(), |k: int| starts@[k] as int) =~= found + seq![i as int]);
            if step > last - i {
                assert(match_starts(hay@, needle@, i + step) =~= Seq::empty());
                done = true;
                next = i;
            } else {
                next = i + step;
            }
        } else {
            if i == last {
                assert(match_starts(hay@, needle@, i + 1) =~= Seq::empty());
                done = true;
                next = i;
            } else {
                next = i + 1;
            }
        }
        i = next;
    }
    starts
}

/// Whether `needle` occurs in `hay`.
pub fn contains(hay: &Vec<char>, needle: &Vec<char>) -> (r: bool)
    ensures
        r == occurs_in(hay@, needle@),
{
    if needle.len() > hay.len() {
        return false;
    }
    let last = hay.len() - needle.len();
    let mut i: usize = 0;
    loop
        invariant
            last == hay.len() - needle.len(),
            i <= last,
            forall|k: int| 0 <= k < i ==> !matches_at(hay@, needle@, k),
        decreases last - i,
    {
        if match_here(hay, needle, i) {
            return true;
        }
        if i == last {
            return false;
        }
        i += 1;
    }
}

/// The folded form of one character: its lower-case form, which may be
/// more than one character.
pub open spec fn fold_char(c: char) -> Seq<char> {
    lowercase(seq![c])
}

/// The folded form of a text: the folded forms of its characters, one
/// behind the other. Two texts match without regard to case where their
/// folded forms match.
pub open spec fn folded(text: Seq<char>) -> Seq<char>
    decreases text.len(),
{
    if text.len() == 0 {
        Seq::empty()
    } else {
        folded(text.drop_last()) + fold_char(text.last())
    }
}

/// For each character of the folded form of a text, the index of the
/// character of the text that it came from.
pub open spec fn origins(text: Seq<char>) -> Seq<usize>
    decreases text.len(),
{
    if text.len() == 0 {
        Seq::empty()
    } else {
        origins(text.drop_last()) + Seq::new(
            fold_char(text.last()).len(),
            |k: int| (text.len() - 1) as usize,
        )
    }
}

/// The origins stand for the characters of the folded form one for one,
/// point into the text, and never go back.
pub proof fn lemma_origins(text: Seq<char>)
    requires
        text.len() <= usize::MAX,
    ensures
        origins(text).len() == folded(text).len(),
        forall|k: int| 0 <= k < origins(text).len() ==> (#[trigger] origins(text)[k]) < text.len(),
        forall|j: int, k: int|
            0 <= j <= k < origins(text).len() ==> origins(text)[j] <= origins(text)[k],
    decreases text.len(),
{
    if text.len() > 0 {
        lemma_origins(text.drop_last());
    }
}

/// The characters of a line that a match in its folded form covers: from
/// the character that the first matched character came from up to the
/// one that the last came from. A match of nothing covers nothing; behind
/// the end of the folded form it stands at the end of the line.
pub open spec fn hit_span(text: Seq<char>, start: int, len: int) -> (usize, usize) {
    let from = if 0 <= start < origins(text).len() {
        origins(text)[start]
    } else {
        text.len() as usize
    };
    let to = if len > 0 && 0 <= start + len - 1 < origins(text).len() {
        (origins(text)[start + len - 1] + 1) as usize
    } else {
        from
    };
    (from, to)
}

/// The hits of the folded `needle` in one display line: the matches in the
/// folded form of the line, each reported by the characters of the line
/// that it covers.
pub open spec fn line_hits(text: Seq<char>, needle: Seq<char>, row: int, side: DiffSide) -> Seq<
    SearchMatch,
> {
    let starts = match_starts(folded(text), needle, 0);
    Seq::new(
        starts.len(),
        |k: int|
            SearchMatch::DiffLine {
                row: row as usize,
                col_start: hit_span(text, starts[k], needle.len() as int).0,
                col_end: hit_span(text, starts[k], needle.len() as int).1,
                side,
            },
    )
}

/// Every match start lies in the hay, with room for the needle.
pub proof fn lemma_match_starts_fit(hay: Seq<char>, needle: Seq<char>, from: int)
    requires
        0 <= from,
    ensures
        forall|k: int|
            0 <= k < match_starts(hay, needle, from).len() ==> from <= (#[trigger] match_starts(
                hay,
                needle,
                from,
            )[k]) && match_starts(hay, needle, from)[k] + needle.len() <= hay.len(),
    decreases hay.len() - from + 1,
{
    let all = match_starts(hay, needle, from);
    if from + needle.len() > hay.len() {
    } else if matches_at(hay, needle, from) {
        let step = if needle.len() > 0 {
            needle.len() as int
        } else {
            1
        };
        let rest = match_starts(hay, needle, from + step);
        lemma_match_starts_fit(hay, needle, from + step);
        assert forall|k: int| 0 <= k < all.len() implies from <= (#[trigger] all[k]) && all[k]
            + needle.len() <= hay.len() by {
            if k > 0 {
                assert(all[k] == rest[k - 1]);
            }
        }
    } else {
        let rest = match_starts(hay, needle, from + 1);
        lemma_match_starts_fit(hay, needle, from + 1);
        assert forall|k: int| 0 <= k < all.len() implies from <= (#[trigger] all[k]) && all[k]
            + needle.len() <= hay.len() by {
            assert(all[k] == rest[k]);
        }
    }
}

/// The columns of every hit are a range of the line: they lie inside it in
/// their order, and the range of a match of something is not empty.
pub proof fn lemma_hits_within_line(text: Seq<char>, needle: Seq<char>, row: int, side: DiffSide)
    requires
        text.len() <= usize::MAX,
    ensures
        forall|k: int|
            0 <= k < line_hits(text, needle, row, side).len() ==> match (#[trigger] line_hits(
                text,
                needle,
                row,
                side,
            )[k]) {
                SearchMatch::DiffLine { col_start, col_end, .. } => {
                    &&& col_start <= col_end <= text.len()
                    &&& needle.len() > 0 ==> col_start < col_end
                },
                _ => false,
            },
{
    lemma_origins(text);
    lemma_match_starts_fit(folded(text), needle, 0);
}

/// Folds one character.
fn fold_one(c: char) -> (r: Vec<char>)
    ensures
        r@ == fold_char(c),
{
    let mut one = String::new();
    one.push(c);
    assert(one@ =~= seq![c]);
    let lower = one.as_str().to_lowercase();
    chars_of(lower.as_str())
}

/// Folds a text, and notes for each character of the folded form the
/// character of the text that it came from.
pub fn fold(text: &str) -> (r: (Vec<char>, Vec<usize>))
    ensures
        r.0@ == folded(text@),
        r.1@ == origins(text@),
{
    let chars = chars_of(text);
    let mut out: Vec<char> = Vec::new();
    let mut from: Vec<usize> = Vec::new();
    let mut i: usize = 0;
    assert(chars@.take(0) =~= Seq::<char>::empty());
    while i < chars.len()
        invariant
            i <= chars.len(),
            chars@ == text@,
            out@ == folded(chars@.take(i as int)),
            from@ == origins(chars@.take(i as int)),
        decreases chars.len() - i,
    {
        let piece = fold_one(chars[i]);
        let ghost prefix = chars@.take(i as int);
        let ghost next = chars@.take(i + 1);
        proof {
            assert(next.drop_last() =~= prefix);
            assert(next.last() == chars@[i as int]);
        }
        let mut k: usize = 0;
        while k < piece.len()
            invariant
                k <= piece.len(),
                out@ == folded(prefix) + piece@.take(k as int),
                from@ == origins(prefix) + Seq::new(k as nat, |m: int| i),
            decreases piece.len() - k,
        {
            out.push(piece[k]);
            from.push(i);
            proof {
                assert(piece@.take(k + 1) =~= piece@.take(k as int).push(piece@[k as int]));
                assert(Seq::new((k + 1) as nat, |m: int| i) =~= Seq::new(k as nat, |m: int| i).push(
                    i,
                ));
            }
            k += 1;
        }
        proof {
            assert(piece@.take(k as int) =~= piece@);
            assert(Seq::new(k as nat, |m: int| i) =~= Seq::new(
                fold_char(next.last()).len(),
                |m: int| (next.len() - 1) as usize,
            ));
        }
        i += 1;
    }
    assert(chars@.take(i as int) =~= chars@);
    (out, from)
}

/// The hits in one row: those of the old line, then those of the new line.
pub open spec fn row_hits(r: RowView, needle: Seq<char>, row: int) -> Seq<SearchMatch> {
    (match r.left {
        Some(l) => line_hits(l.content, needle, row, DiffSide::Left),
        None => Seq::empty(),
    }) + (match r.right {
        Some(l) => line_hits(l.content, needle, row, DiffSide::Right),
        None => Seq::empty(),
    })
}

/// The hits in rows of which the first is display row `first_row`, row after
/// row.
pub open spec fn rows_hits(rows: Seq<RowView>, needle: Seq<char>, first_row: int) -> Seq<
    SearchMatch,
>
    decreases rows.len(),
{
    if rows.len() == 0 {
        Seq::empty()
    } else {
        rows_hits(rows.drop_last(), needle, first_row) + row_hits(
            rows.last(),
            needle,
            first_row + rows.len() - 1,
        )
    }
}

/// The hits in one hunk whose header is display row `first_row`: those of
/// the header, reported on the left side, then those of its rows.
pub open spec fn hunk_hits(h: HunkView, needle: Seq<char>, first_row: int) -> Seq<SearchMatch> {
    line_hits(h.header, needle, first_row, DiffSide::Left) + rows_hits(
        h.rows,
        needle,
        first_row + 1,
    )
}

/// The hits in the hunks of a file, hunk after hunk.
pub open spec fn file_hits(hunks: Seq<HunkView>, needle: Seq<char>) -> Seq<SearchMatch>
    decreases hunks.len(),
{
    if hunks.len() == 0 {
        Seq::empty()
    } else {
        file_hits(hunks.drop_last(), needle) + hunk_hits(
            hunks.last(),
            needle,
            flat_len(hunks.drop_last()) as int,
        )
    }
}

/// All matches of `query` in a file, without regard to case, in the order
/// of the display rows. Rows are rows of the flattened content.
pub open spec fn diff_matches(hunks: Seq<HunkView>, query: Seq<char>) -> Seq<SearchMatch> {
    file_hits(hunks, folded(query))
}

/// Whether a hit lies in the given line of the given row and side: its
/// columns are a range of the line, and not an empty one where something
/// was searched for.
pub open spec fn spans_line(
    hit: SearchMatch,
    text: Seq<char>,
    row: usize,
    side: DiffSide,
    something: bool,
) -> bool {
    match hit {
        SearchMatch::DiffLine { row: r, col_start, col_end, side: s } => {
            &&& r == row
            &&& s == side
            &&& col_start <= col_end <= text.len()
            &&& something ==> col_start < col_end
        },
        _ => false,
    }
}

/// Whether a hit lies in the flattened content: its row is one of the
/// rows, and its columns are a range of the row's line on the hit's side.
pub open spec fn in_content(
    hit: SearchMatch,
    left: Seq<Seq<char>>,
    right: Seq<Seq<char>>,
    something: bool,
) -> bool {
    match hit {
        SearchMatch::DiffLine { row, side, .. } => {
            let lines = if side == DiffSide::Left {
                left
            } else {
                right
            };
            row < lines.len() && spans_line(hit, lines[row as int], row, side, something)
        },
        _ => false,
    }
}

fn push_line_hits(
    matches: &mut Vec<SearchMatch>,
    text: &str,
    needle: &Vec<char>,
    row: usize,
    side: DiffSide,
)
    ensures
        final(matches)@ == old(matches)@ + line_hits(text@, needle@, row as int, side),
        forall|k: int|
            old(matches)@.len() <= k < final(matches)@.len() ==> spans_line(
                #[trigger] final(matches)@[k],
                text@,
                row,
                side,
                needle@.len() > 0,
            ),
{
    let (hay, from) = fold(text);
    let width = crate::text::char_count(text);
    let starts = find_matches(&hay, needle);
    let ghost hits = line_hits(text@, needle@, row as int, side);
    proof {
        lemma_origins(text@);
        lemma_hits_within_line(text@, needle@, row as int, side);
    }
    let mut k: usize = 0;
    assert(matches@ =~= old(matches)@ + hits.take(0));
    while k < starts.len()
        invariant
            k <= starts.len(),
            hay@ == folded(text@),
            from@ == origins(text@),
            from@.len() == hay@.len(),
            width == text@.len(),
            forall|j: int| 0 <= j < from@.len() ==> (#[trigger] from@[j]) < text@.len(),
            hits == line_hits(text@, needle@, row as int, side),
            starts@.len() == match_starts(hay@, needle@, 0).len(),
            forall|j: int|
                0 <= j < starts@.len() ==> starts@[j] == match_starts(hay@, needle@, 0)[j],
            forall|j: int| 0 <= j < starts@.len() ==> starts@[j] + needle.len() <= hay.len(),
            matches@ == old(matches)@ + hits.take(k as int),
        decreases starts.len() - k,
    {
        let start = starts[k];
        let col_start = if start < from.len() {
            from[start]
        } else {
            width
        };
        let col_end = if needle.len() > 0 {
            from[start + needle.len() - 1] + 1
        } else {
            col_start
        };
        let hit = SearchMatch::DiffLine { row, col_start, col_end, side };
        matches.push(hit);
        assert(hits[k as int] == hit);
        assert(hits.take(k + 1) =~= hits.take(k as int).push(hit));
        k += 1;
    }
    proof {
        assert(hits.take(k as int) =~= hits);
        assert forall|j: int| old(matches)@.len() <= j < matches@.len() implies spans_line(
            #[trigger] matches@[j],
            text@,
            row,
            side,
            needle@.len() > 0,
        ) by {
            assert(matches@[j] == hits[j - old(matches)@.len()]);
        }
    }
}

/// Finds all matches of `query` in `file`, without regard to case. Every
/// match lies in the flattened content: its columns are the characters of
/// its row's line that it covers.
pub fn search_diff(file: &FileDiff, query: &str) -> (matches: Vec<SearchMatch>)
    requires
        flat_len(file.deep_view().hunks) <= usize::MAX,
    ensures
        matches@ == diff_matches(file.deep_view().hunks, query@),
        forall|k: int|
            0 <= k < matches@.len() ==> in_content(
                #[trigger] matches@[k],
                flattened(file.deep_view().hunks, DiffSide::Left),
                flattened(file.deep_view().hunks, DiffSide::Right),
                folded(query@).len() > 0,
            ),
{
    let ghost hunks = file.hunks.deep_view();
    let needle = fold(query).0;
    let ghost something = needle@.len() > 0;
    let mut matches: Vec<SearchMatch> = Vec::new();
    let mut row_idx: usize = 0;
    let mut h: usize = 0;
    assert(hunks.take(0) =~= Seq::<HunkView>::empty());
    while h < file.hunks.len()
        invariant
            h <= file.hunks.len(),
            hunks == file.hunks.deep_view(),
            flat_len(hunks) <= usize::MAX,
            needle@ == folded(query@),
            something == (needle@.len() > 0),
            row_idx == flat_len(hunks.take(h as int)),
            matches@ == file_hits(hunks.take(h as int), needle@),
            forall|k: int|
                0 <= k < matches@.len() ==> in_content(
                    #[trigger] matches@[k],
                    flattened(hunks.take(h as int), DiffSide::Left),
                    flattened(hunks.take(h as int), DiffSide::Right),
                    something,
                ),
        decreases file.hunks.len() - h,
    {
        let hunk = &file.hunks[h];
        let ghost hv = hunk.deep_view();
        let ghost first_row = row_idx;
        let ghost before = matches@;
        let ghost base_left = flattened(hunks.take(h as int), DiffSide::Left);
        let ghost base_right = flattened(hunks.take(h as int), DiffSide::Right);
        proof {
            crate::diff::lemma_flat_len_prefix(hunks, h + 1);
            crate::diff::lemma_flattened_len(hunks.take(h as int), DiffSide::Left);
            crate::diff::lemma_flattened_len(hunks.take(h as int), DiffSide::Right);
            assert(hunks.take(h + 1).drop_last() =~= hunks.take(h as int));
            assert(hunks.take(h + 1).last() == hv);
        }
        push_line_hits(&mut matches, hunk.header.as_str(), &needle, row_idx, DiffSide::Left);
        row_idx += 1;
        let ghost after_header = matches@;
        let mut r: usize = 0;
        assert(hv.rows.take(0) =~= Seq::<RowView>::empty());
        while r < hunk.rows.len()
            invariant
                r <= hunk.rows.len(),
                hv == hunk.deep_view(),
                something == (needle@.len() > 0),
                first_row + 1 + hunk.rows.len() <= usize::MAX,
                row_idx == first_row + 1 + r,
                base_left.len() == first_row,
                base_right.len() == first_row,
                matches@ == after_header + rows_hits(hv.rows.take(r as int), needle@, first_row + 1),
                forall|k: int|
                    0 <= k < matches@.len() ==> in_content(
                        #[trigger] matches@[k],
                        base_left + seq![hv.header] + Seq::new(
                            r as nat,
                            |j: int| hv.rows[j].side_text(DiffSide::Left),
                        ),
                        base_right + seq![hv.header] + Seq::new(
                            r as nat,
                            |j: int| hv.rows[j].side_text(DiffSide::Right),
                        ),
                        something,
                    ),
            decreases hunk.rows.len() - r,
        {
            let row = &hunk.rows[r];
            let ghost so_far = matches@;
            let ghost next_left = base_left + seq![hv.header] + Seq::new(
                (r + 1) as nat,
                |j: int| hv.rows[j].side_text(DiffSide::Left),
            );
            let ghost next_right = base_right + seq![hv.header] + Seq::new(
                (r + 1) as nat,
                |j: int| hv.rows[j].side_text(DiffSide::Right),
            );
            proof {
                assert(hv.rows.take(r + 1).drop_last() =~= hv.rows.take(r as int));
                assert(hv.rows.take(r + 1).last() == row.deep_view());
                assert(hv.rows[r as int] == row.deep_view());
                assert forall|k: int| 0 <= k < so_far.len() implies in_content(
                    #[trigger] so_far[k],
                    next_left,
                    next_right,
                    something,
                ) by {
                    assert(in_content(
                        matches@[k],
                        base_left + seq![hv.header] + Seq::new(
                            r as nat,
                            |j: int| hv.rows[j].side_text(DiffSide::Left),
                        ),
                        base_right + seq![hv.header] + Seq::new(
                            r as nat,
                            |j: int| hv.rows[j].side_text(DiffSide::Right),
                        ),
                        something,
                    ));
                }
            }
            match &row.left {
                Some(l) => {
                    push_line_hits(
                        &mut matches,
                        l.content.as_str(),
                        &needle,
                        row_idx,
                        DiffSide::Left,
                    );
                    assert(next_left[row_idx as int] == l.content@);
                },
                None => {},
            }
            let ghost with_left = matches@;
            assert forall|k: int| so_far.len() <= k < with_left.len() implies in_content(
                #[trigger] with_left[k],
                next_left,
                next_right,
                something,
            ) by {
                assert(row.left is Some);
                assert(spans_line(
                    with_left[k],
                    row.left->0.content@,
                    row_idx,
                    DiffSide::Left,
                    something,
                ));
                assert(next_left[row_idx as int] == row.left->0.content@);
            }
            match &row.right {
                Some(l) => {
                    push_line_hits(
                        &mut matches,
                        l.content.as_str(),
                        &needle,
                        row_idx,
                        DiffSide::Right,
                    );
                    assert(next_right[row_idx as int] == l.content@);
                },
                None => {},
            }
            assert forall|k: int| with_left.len() <= k < matches@.len() implies in_content(
                #[trigger] matches@[k],
                next_left,
                next_right,
                something,
            ) by {
                assert(row.right is Some);
                assert(spans_line(
                    matches@[k],
                    row.right->0.content@,
                    row_idx,
                    DiffSide::Right,
                    something,
                ));
                assert(next_right[row_idx as int] == row.right->0.content@);
            }
            proof {
                assert(matches@ =~= so_far + row_hits(row.deep_view(), needle@, row_idx as int));
                assert forall|k: int| 0 <= k < matches@.len() implies in_content(
                    #[trigger] matches@[k],
                    next_left,
                    next_right,
                    something,
                ) by {
                    if k < so_far.len() {
                        assert(matches@[k] == so_far[k]);
                    } else if k < with_left.len() {
                        assert(matches@[k] == with_left[k]);
                    }
                }
            }
            row_idx += 1;
            r += 1;
        }
        proof {
            assert(hv.rows.take(r as int) =~= hv.rows);
            assert(matches@ =~= before + hunk_hits(hv, needle@, first_row as int));
            assert(flattened(hunks.take(h + 1), DiffSide::Left) =~= base_left + seq![hv.header]
                + Seq::new(r as nat, |j: int| hv.rows[j].side_text(DiffSide::Left)));
            assert(flattened(hunks.take(h + 1), DiffSide::Right) =~= base_right + seq![hv.header]
                + Seq::new(r as nat, |j: int| hv.rows[j].side_text(DiffSide::Right)));
        }
        h += 1;
    }
    assert(hunks.take(h as int) =~= hunks);
    matches
}

/// Whether `text`, in lower case, holds `needle`.
pub fn text_matches(text: &str, needle: &Vec<char>) -> (r: bool)
    ensures
        r == occurs_in(lowercase(text@), needle@),
{
    let lower = text.to_lowercase();
    let hay = chars_of(lower.as_str());
    contains(&hay, needle)
}

/// The match to go to from `current` among `total` matches: the next one or
/// the previous one, cyclically; from no current match, the first one going
/// forward and the last one going backward.
pub open spec fn next_index(current: Option<usize>, total: int, forward: bool) -> int {
    match current {
        Some(idx) => if forward {
            ((idx as int) % total + 1) % total
        } else {
            ((idx as int) % total + total - 1) % total
        },
        None => if forward {
            0
        } else {
            total - 1
        },
    }
}

/// Computes the index of the match to jump to.
pub fn step_match_index(current: Option<usize>, total: usize, forward: bool) -> (r: usize)
    requires
        total > 0,
    ensures
        r == next_index(current, total as int, forward),
        r < total,
{
    match current {
        Some(idx) => {
            let i = idx % total;
            if forward {
                if i + 1 == total {
                    proof {
                        vstd::arithmetic::div_mod::lemma_mod_self_0(total as int);
                    }
                    0
                } else {
                    proof {
                        lemma_small_mod((i + 1) as nat, total as nat);
                    }
                    i + 1
                }
            } else {
                if i == 0 {
                    proof {
                        lemma_small_mod((total - 1) as nat, total as nat);
                    }
                    total - 1
                } else {
                    proof {
                        lemma_mod_add_multiples_vanish(i - 1, total as int);
                        lemma_small_mod((i - 1) as nat, total as nat);
                    }
                    i - 1
                }
            }
        },
        None => if forward {
            0
        } else {
            total - 1
        },
    }
}

/// The index reached from `idx` by `n` forward jumps.
pub open spec fn forward_n(idx: usize, total: int, n: nat) -> int
    decreases n,
{
    if n == 0 {
        idx as int
    } else {
        next_index(Some(forward_n(idx, total, (n - 1) as nat) as usize), total, true)
    }
}

proof fn lemma_forward_n(idx: usize, total: int, n: nat)
    requires
        idx < total <= usize::MAX,
    ensures
        forward_n(idx, total, n) == (idx + n) % total,
        0 <= forward_n(idx, total, n) < total,
    decreases n,
{
    if n == 0 {
        lemma_small_mod(idx as nat, total as nat);
    } else {
        lemma_forward_n(idx, total, (n - 1) as nat);
        let prev = forward_n(idx, total, (n - 1) as nat);
        lemma_small_mod(prev as nat, total as nat);
        lemma_add_mod_noop(idx + n - 1, 1, total);
        if total == 1 {
        } else {
            lemma_small_mod(1, total as nat);
        }
        vstd::arithmetic::div_mod::lemma_mod_bound(idx + n, total);
    }
}

/// Cyclic navigation: among `total` matches, `total` forward jumps lead back
/// to the match they started from.
pub proof fn lemma_jump_full_cycle(idx: usize, total: usize)
    requires
        idx < total,
    ensures
        forward_n(idx, total as int, total as nat) == idx,
{
    lemma_forward_n(idx, total as int, total as nat);
    lemma_mod_add_multiples_vanish(idx as int, total as int);
    lemma_small_mod(idx as nat, total as nat);
}

/// Cyclic navigation: a forward jump followed by a backward jump leads back
/// to the match they started from, and so does a backward jump followed by
/// a forward one.
pub proof fn lemma_jump_there_and_back(idx: usize, total: usize)
    requires
        idx < total,
    ensures
        next_index(Some(next_index(Some(idx), total as int, true) as usize), total as int, false)
            == idx,
        next_index(Some(next_index(Some(idx), total as int, false) as usize), total as int, true)
            == idx,
{
    let t = total as int;
    lemma_small_mod(idx as nat, total as nat);
    if idx + 1 == total {
        vstd::arithmetic::div_mod::lemma_mod_self_0(t);
        lemma_small_mod(0, total as nat);
        lemma_small_mod((total - 1) as nat, total as nat);
    } else {
        lemma_small_mod((idx + 1) as nat, total as nat);
        lemma_mod_add_multiples_vanish(idx as int, t);
    }
    if idx == 0 {
        lemma_small_mod((total - 1) as nat, total as nat);
        vstd::arithmetic::div_mod::lemma_mod_self_0(t);
    } else {
        lemma_mod_add_multiples_vanish(idx - 1, t);
        lemma_small_mod((idx - 1) as nat, total as nat);
    }
}

} // verus!
