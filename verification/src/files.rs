//! The files under review: the diff, the file tree's selection and
//! collapsed directories, and what is kept per selected file: its flattened
//! content and its colours.

use crate::cursor::DiffSide;
use crate::diff::{
    content_lines, flat_len, flattened, highlight_input, highlight_lines, hunk_starts,
    lemma_flattened_len, DiffState, FileDiff, FileView, HunkView,
};
use crate::syntax::{HighlightCache, Rgb, SyntaxHighlighter};
use crate::text::same_text;
use crate::tree::{build_tree_entries, file_at, paths_of, tree_entries, TreeEntry, TreeEntryView};
use vstd::prelude::*;

verus! {

/// Colours for one file that were computed in the background.
pub struct BgHighlight {
    pub path: String,
    pub left: Vec<Vec<Rgb>>,
    pub right: Vec<Vec<Rgb>>,
}

/// The flattened content of one side of one file, kept for reuse.
pub struct ContentCache {
    pub path: String,
    pub side: DiffSide,
    pub lines: Vec<String>,
}

/// The diff under review with the state of the file tree and what is kept for
/// the selected file.
pub struct DiffFiles {
    pub diff_state: DiffState,
    pub collapsed_dirs: Vec<String>,
    pub selected_tree_idx: usize,
    /// The content of the selected file on one side, if it has been
    /// flattened since the selection or the diff last changed.
    pub content_lines_cache: Option<ContentCache>,
    pub highlighter: SyntaxHighlighter,
    pub highlight_cache: Option<HighlightCache>,
    /// Colours that arrived from the background and were not used yet.
    pub bg_highlights: Vec<BgHighlight>,
}

impl DiffFiles {
    /// The entries of the file tree.
    pub open spec fn tree(self) -> Seq<TreeEntryView> {
        tree_entries(paths_of(self.diff_state.files.deep_view()), self.collapsed_dirs.deep_view())
    }

    /// The index of the selected file: the file of the selected tree
    /// entry, if that entry is a file.
    pub open spec fn selected_index(self) -> Option<usize> {
        match file_at(self.tree(), self.selected_tree_idx as int) {
            Some(idx) => if idx < self.diff_state.files.len() {
                Some(idx)
            } else {
                None
            },
            None => None,
        }
    }

    /// The hunks of the selected file; none where no file is selected.
    pub open spec fn selected_hunks(self) -> Seq<HunkView> {
        match self.selected_index() {
            Some(idx) => self.diff_state.files[idx as int].deep_view().hunks,
            None => Seq::empty(),
        }
    }

    /// The flattened content of the selected file on `side`: the
    /// coordinate space of the cursor.
    pub open spec fn lines_on(self, side: DiffSide) -> Seq<Seq<char>> {
        flattened(self.selected_hunks(), side)
    }

    /// What is kept agrees with what it was computed from: kept content for
    /// the selected file is that file's flattened content on the kept side,
    /// the colour cache is consistent with the highlighter and is for the
    /// rows of the diff's file with its path, and the highlighter's set is
    /// one that was loaded and checked.
    #[verifier::opaque]
    pub open spec fn wf(self) -> bool {
        &&& match self.content_lines_cache {
            Some(kept) => match self.selected_index() {
                Some(idx) => kept.path@ == self.diff_state.files[idx as int].path@
                    ==> kept.lines.deep_view() == self.lines_on(kept.side),
                None => true,
            },
            None => true,
        }
        &&& match self.highlight_cache {
            Some(cache) => cache.wf(self.highlighter) && self.cache_fits(cache),
            None => true,
        }
        &&& self.highlighter.sound()
    }

    /// The hunks of the diff's file with this path: of the first one, should
    /// there be several.
    pub open spec fn hunks_of_path(self, path: Seq<char>) -> Option<Seq<HunkView>> {
        match file_position(self.diff_state.files.deep_view(), path, 0) {
            Some(i) => Some(self.diff_state.files.deep_view()[i].hunks),
            None => None,
        }
    }

    /// Whether kept colours are for the rows of the diff's file with their
    /// path: colouring on demand works on the lines and hunk starts of that
    /// file; colours computed beforehand have one entry for each of its rows.
    pub open spec fn cache_fits(self, cache: HighlightCache) -> bool {
        match self.hunks_of_path(cache.file_path@) {
            Some(hunks) => match cache.incremental {
                Some(inc) => {
                    &&& inc.left_lines.deep_view() == highlight_lines(hunks, DiffSide::Left)
                    &&& inc.right_lines.deep_view() == highlight_lines(hunks, DiffSide::Right)
                    &&& inc.hunk_starts@ == hunk_starts(hunks)
                },
                None => {
                    &&& cache.left_colors.len() == flat_len(hunks)
                    &&& cache.right_colors.len() == flat_len(hunks)
                },
            },
            None => false,
        }
    }

    /// The same files, selection and colours; only the kept content may differ.
    pub open spec fn same_but_content(self, other: DiffFiles) -> bool {
        other == (DiffFiles { content_lines_cache: other.content_lines_cache, ..self })
    }

    /// For a diff that has been read: nothing selected beyond the first
    /// entry, nothing collapsed, nothing kept.
    pub fn new(diff_state: DiffState) -> (files: Self)
        ensures
            files.wf(),
            files.diff_state == diff_state,
            files.collapsed_dirs@.len() == 0,
            files.selected_tree_idx == 0,
            files.content_lines_cache is None,
            files.highlight_cache is None,
            files.bg_highlights@.len() == 0,
    {
        reveal(DiffFiles::wf);
        DiffFiles {
            diff_state,
            collapsed_dirs: Vec::new(),
            selected_tree_idx: 0,
            content_lines_cache: None,
            highlighter: SyntaxHighlighter::new(),
            highlight_cache: None,
            bg_highlights: Vec::new(),
        }
    }

    /// Builds the entries of the file tree.
    pub fn build_tree_entries(&self) -> (entries: Vec<TreeEntry>)
        ensures
            entries.deep_view() == self.tree(),
    {
        build_tree_entries(&self.diff_state.files, &self.collapsed_dirs)
    }

    /// The position of the selected file among the files.
    pub fn selected_file_index(&self) -> (r: Option<usize>)
        ensures
            r == self.selected_index(),
            r matches Some(idx) ==> idx < self.diff_state.files.len(),
    {
        let entries = self.build_tree_entries();
        if self.selected_tree_idx < entries.len() {
            assert(self.tree()[self.selected_tree_idx as int]
                == entries[self.selected_tree_idx as int].deep_view());
            match &entries[self.selected_tree_idx] {
                TreeEntry::File { file_idx, .. } => {
                    if *file_idx < self.diff_state.files.len() {
                        Some(*file_idx)
                    } else {
                        None
                    }
                },
                _ => None,
            }
        } else {
            None
        }
    }

    /// The selected file, if the selected tree entry is a file.
    pub fn selected_file(&self) -> (r: Option<&FileDiff>)
        ensures
            match r {
                Some(file) => self.selected_index() is Some && *file
                    == self.diff_state.files[self.selected_index()->0 as int]
                    && file.deep_view().hunks == self.selected_hunks(),
                None => self.selected_index() is None,
            },
    {
        match self.selected_file_index() {
            Some(idx) => Some(&self.diff_state.files[idx]),
            None => None,
        }
    }

    /// The flattened content of the selected file on `side`; empty where
    /// no file is selected. The content is kept and handed out again as long
    /// as the same file and side are asked for.
    pub fn content_lines(&mut self, side: DiffSide) -> (lines: Vec<String>)
        requires
            old(self).wf(),
        ensures
            final(self).wf(),
            lines.deep_view() == old(self).lines_on(side),
            lines.len() == flat_len(old(self).selected_hunks()),
            old(self).same_but_content(*final(self)),
    {
        reveal(DiffFiles::wf);
        proof {
            lemma_flattened_len(self.selected_hunks(), side);
        }
        let idx = match self.selected_file_index() {
            Some(idx) => idx,
            None => {
                return Vec::new();
            },
        };
        let hit = match &self.content_lines_cache {
            Some(kept) => same_text(kept.path.as_str(), self.diff_state.files[idx].path.as_str())
                && kept.side == side,
            None => false,
        };
        if hit {
            match &self.content_lines_cache {
                Some(kept) => {
                    let copy = kept.lines.clone();
                    assert(copy.deep_view() =~= kept.lines.deep_view());
                    return copy;
                },
                None => {},
            }
        }
        let lines = content_lines(&self.diff_state.files[idx], side);
        let copy = lines.clone();
        assert(copy.deep_view() =~= lines.deep_view());
        self.content_lines_cache = Some(
            ContentCache { path: self.diff_state.files[idx].path.clone(), side, lines: copy },
        );
        lines
    }

    /// Selects another entry of the tree. Kept content is dropped.
    pub fn select(&mut self, idx: usize)
        requires
            old(self).wf(),
        ensures
            final(self).wf(),
            *final(self) == (DiffFiles {
                selected_tree_idx: idx,
                content_lines_cache: None,
                ..*old(self)
            }),
    {
        reveal(DiffFiles::wf);
        self.selected_tree_idx = idx;
        self.content_lines_cache = None;
    }

    /// The directories without `path`.
    pub open spec fn without(collapsed: Seq<Seq<char>>, path: Seq<char>) -> Seq<Seq<char>>
        decreases collapsed.len(),
    {
        if collapsed.len() == 0 {
            collapsed
        } else if collapsed.last() == path {
            Self::without(collapsed.drop_last(), path)
        } else {
            Self::without(collapsed.drop_last(), path).push(collapsed.last())
        }
    }

    /// The collapsed directories after the directory `path` was toggled:
    /// without it if it was among them, with it otherwise.
    pub open spec fn toggled(collapsed: Seq<Seq<char>>, path: Seq<char>) -> Seq<Seq<char>> {
        if collapsed.contains(path) {
            Self::without(collapsed, path)
        } else {
            collapsed.push(path)
        }
    }

    /// Collapses the directory, or expands it again. Kept content is dropped.
    pub fn toggle_dir(&mut self, path: &str)
        requires
            old(self).wf(),
        ensures
            final(self).wf(),
            final(self).collapsed_dirs.deep_view() == Self::toggled(
                old(self).collapsed_dirs.deep_view(),
                path@,
            ),
            *final(self) == (DiffFiles {
                collapsed_dirs: final(self).collapsed_dirs,
                content_lines_cache: None,
                ..*old(self)
            }),
    {
        reveal(DiffFiles::wf);
        let ghost before = self.collapsed_dirs.deep_view();
        let mut kept: Vec<String> = Vec::new();
        let mut found = false;
        let mut i: usize = 0;
        assert(before.take(0) =~= Seq::<Seq<char>>::empty());
        while i < self.collapsed_dirs.len()
            invariant
                i <= self.collapsed_dirs.len(),
                before == self.collapsed_dirs.deep_view(),
                kept.deep_view() == Self::without(before.take(i as int), path@),
                found == before.take(i as int).contains(path@),
                *self == *old(self),
            decreases self.collapsed_dirs.len() - i,
        {
            let ghost prefix = before.take(i as int);
            let ghost next = before.take(i + 1);
            let ghost so_far = kept.deep_view();
            proof {
                assert(next.drop_last() =~= prefix);
                assert(next.last() == before[i as int]);
                assert(before[i as int] == self.collapsed_dirs[i as int]@);
                if prefix.contains(path@) {
                    let j = choose|j: int| 0 <= j < prefix.len() && prefix[j] == path@;
                    assert(next[j] == path@);
                }
            }
            if same_text(self.collapsed_dirs[i].as_str(), path) {
                found = true;
                assert(next[i as int] == path@);
            } else {
                kept.push(self.collapsed_dirs[i].clone());
                assert(kept.deep_view() =~= so_far.push(before[i as int]));
                proof {
                    if next.contains(path@) {
                        let j = choose|j: int| 0 <= j < next.len() && next[j] == path@;
                        assert(prefix[j] == path@);
                    }
                }
            }
            i += 1;
        }
        assert(before.take(i as int) =~= before);
        if !found {
            let ghost all = self.collapsed_dirs.deep_view();
            let mut same = Vec::new();
            core::mem::swap(&mut same, &mut self.collapsed_dirs);
            same.push(path.to_owned());
            assert(same.deep_view() =~= all.push(path@));
            self.collapsed_dirs = same;
        } else {
            self.collapsed_dirs = kept;
        }
        self.content_lines_cache = None;
    }
}

/// The first tree entry from `from` on that stands for the file with this path.
pub open spec fn entry_of_path(
    tree: Seq<TreeEntryView>,
    paths: Seq<Seq<char>>,
    path: Seq<char>,
    from: int,
) -> Option<int>
    decreases tree.len() - from,
{
    if from < 0 || from >= tree.len() {
        None
    } else if (tree[from] matches TreeEntryView::File { file_idx, .. } && file_idx < paths.len()
        && paths[file_idx as int] == path) {
        Some(from)
    } else {
        entry_of_path(tree, paths, path, from + 1)
    }
}

/// The first of the files from `from` on that has this path.
pub open spec fn file_position(files: Seq<FileView>, path: Seq<char>, from: int) -> Option<int>
    decreases files.len() - from,
{
    if from < 0 || from >= files.len() {
        None
    } else if files[from].path == path {
        Some(from)
    } else {
        file_position(files, path, from + 1)
    }
}

/// The first of the background colours from `from` on that is for this path.
pub open spec fn bg_position(bg: Seq<BgHighlight>, path: Seq<char>, from: int) -> Option<int>
    decreases bg.len() - from,
{
    if from < 0 || from >= bg.len() {
        None
    } else if bg[from].path@ == path {
        Some(from)
    } else {
        bg_position(bg, path, from + 1)
    }
}

impl DiffFiles {
    /// The path of the selected file.
    pub open spec fn selected_path(self) -> Option<Seq<char>> {
        match self.selected_index() {
            Some(idx) => Some(self.diff_state.files[idx as int].path@),
            None => None,
        }
    }

    /// The entry to select in `tree` after a refresh: the one of the file
    /// that was selected before, by its path, or else the first; without a
    /// selected file the index stays; an index past the end goes to the
    /// last entry.
    pub open spec fn reselected(
        self,
        tree: Seq<TreeEntryView>,
        paths: Seq<Seq<char>>,
    ) -> usize {
        let wanted = match self.selected_path() {
            Some(path) => match entry_of_path(tree, paths, path, 0) {
                Some(i) => i,
                None => 0,
            },
            None => self.selected_tree_idx as int,
        };
        if wanted >= tree.len() && tree.len() > 0 {
            (tree.len() - 1) as usize
        } else {
            wanted as usize
        }
    }

    /// Takes in a diff that was read again. The file that was selected
    /// stays selected if it is still there; everything kept is dropped.
    pub fn replace_diff(&mut self, state: DiffState)
        requires
            old(self).wf(),
        ensures
            final(self).wf(),
            final(self).diff_state == state,
            final(self).collapsed_dirs == old(self).collapsed_dirs,
            final(self).highlighter == old(self).highlighter,
            final(self).content_lines_cache is None,
            final(self).highlight_cache is None,
            final(self).bg_highlights@.len() == 0,
            final(self).selected_tree_idx == old(self).reselected(
                final(self).tree(),
                paths_of(state.files.deep_view()),
            ),
    {
        reveal(DiffFiles::wf);
        let old_path: Option<String> = match self.selected_file() {
            Some(f) => Some(f.path.clone()),
            None => None,
        };
        self.diff_state = state;
        let entries = self.build_tree_entries();
        let ghost tree = self.tree();
        let ghost paths = paths_of(self.diff_state.files.deep_view());
        match old_path {
            Some(path) => {
                let mut found: Option<usize> = None;
                let mut i: usize = 0;
                while i < entries.len() && found.is_none()
                    invariant
                        i <= entries.len(),
                        entries.deep_view() == tree,
                        paths == paths_of(self.diff_state.files.deep_view()),
                        found is None ==> entry_of_path(tree, paths, path@, i as int)
                            == entry_of_path(tree, paths, path@, 0),
                        found matches Some(k) ==> entry_of_path(tree, paths, path@, 0) == Some(
                            k as int,
                        ),
                    decreases entries.len() - i + if found is None {
                        1int
                    } else {
                        0int
                    },
                {
                    assert(tree[i as int] == entries[i as int].deep_view());
                    let here = match &entries[i] {
                        TreeEntry::File { file_idx, .. } => {
                            if *file_idx < self.diff_state.files.len() {
                                assert(paths[*file_idx as int]
                                    == self.diff_state.files[*file_idx as int].path@);
                                same_text(
                                    self.diff_state.files[*file_idx].path.as_str(),
                                    path.as_str(),
                                )
                            } else {
                                false
                            }
                        },
                        _ => false,
                    };
                    if here {
                        found = Some(i);
                    } else {
                        i += 1;
                    }
                }
                self.selected_tree_idx = match found {
                    Some(k) => k,
                    None => 0,
                };
            },
            None => {},
        }
        if self.selected_tree_idx >= entries.len() && entries.len() > 0 {
            self.selected_tree_idx = entries.len() - 1;
        }
        self.highlight_cache = None;
        self.content_lines_cache = None;
        self.bg_highlights = Vec::new();
    }

    /// How the files after colours from the background were taken in
    /// relate to the files before. Colours for the path whose colours are
    /// kept already are dropped: what is kept stays the authority.
    /// Otherwise the colours stand among those not yet used, in the place
    /// of earlier ones for the same path where there are such, at the end
    /// otherwise. Nothing else changes.
    pub open spec fn bg_added(self, entry: BgHighlight, after: DiffFiles) -> bool {
        if !self.needs_colours(entry.path@) {
            after == self
        } else {
            &&& after == (DiffFiles { bg_highlights: after.bg_highlights, ..self })
            &&& after.bg_highlights@ == match bg_position(self.bg_highlights@, entry.path@, 0) {
                Some(k) => self.bg_highlights@.update(k, entry),
                None => self.bg_highlights@.push(entry),
            }
            &&& bg_position(after.bg_highlights@, entry.path@, 0) is Some
        }
    }

    /// Takes in colours that the background computed for a file, unless
    /// colours for the file are kept already. Of two results for one path
    /// the later one replaces the earlier.
    pub fn add_bg_highlight(&mut self, path: String, left: Vec<Vec<Rgb>>, right: Vec<Vec<Rgb>>)
        requires
            old(self).wf(),
        ensures
            final(self).wf(),
            old(self).bg_added(BgHighlight { path, left, right }, *final(self)),
    {
        reveal(DiffFiles::wf);
        let kept = match &self.highlight_cache {
            Some(cache) => same_text(cache.file_path.as_str(), path.as_str()),
            None => false,
        };
        if kept {
            return;
        }
        let found = self.find_bg(path.as_str());
        let entry = BgHighlight { path, left, right };
        match found {
            Some(k) => {
                let ghost before = self.bg_highlights@;
                self.bg_highlights.set(k, entry);
                proof {
                    Self::lemma_bg_position_update(before, entry, k as int, 0);
                }
            },
            None => {
                let ghost before = self.bg_highlights@;
                self.bg_highlights.push(entry);
                proof {
                    Self::lemma_bg_position_push(before, entry, 0);
                }
            },
        }
    }

    proof fn lemma_bg_position_update(bg: Seq<BgHighlight>, entry: BgHighlight, k: int, from: int)
        requires
            0 <= from <= k < bg.len(),
            bg_position(bg, entry.path@, from) == Some(k),
        ensures
            bg_position(bg.update(k, entry), entry.path@, from) == Some(k),
        decreases k - from,
    {
        if from < k {
            assert(bg.update(k, entry)[from] == bg[from]);
            Self::lemma_bg_position_update(bg, entry, k, from + 1);
        }
    }

    proof fn lemma_bg_position_push(bg: Seq<BgHighlight>, entry: BgHighlight, from: int)
        requires
            0 <= from <= bg.len(),
            bg_position(bg, entry.path@, from) is None,
        ensures
            bg_position(bg.push(entry), entry.path@, from) == Some(bg.len() as int),
        decreases bg.len() - from,
    {
        if from < bg.len() {
            assert(bg.push(entry)[from] == bg[from]);
            Self::lemma_bg_position_push(bg, entry, from + 1);
        }
    }

    fn find_bg(&self, path: &str) -> (r: Option<usize>)
        ensures
            match r {
                Some(k) => k < self.bg_highlights.len() && bg_position(
                    self.bg_highlights@,
                    path@,
                    0,
                ) == Some(k as int),
                None => bg_position(self.bg_highlights@, path@, 0) is None,
            },
    {
        let mut i: usize = 0;
        while i < self.bg_highlights.len()
            invariant
                i <= self.bg_highlights.len(),
                bg_position(self.bg_highlights@, path@, i as int) == bg_position(
                    self.bg_highlights@,
                    path@,
                    0,
                ),
            decreases self.bg_highlights.len() - i,
        {
            if same_text(self.bg_highlights[i].path.as_str(), path) {
                return Some(i);
            }
            i += 1;
        }
        None
    }

    /// Whether colouring for `file` has to start afresh: no colours are
    /// kept, or those kept are for another path.
    pub open spec fn needs_colours(self, path: Seq<char>) -> bool {
        match self.highlight_cache {
            Some(cache) => cache.file_path@ != path,
            None => true,
        }
    }

    /// The number of rows that colours are owed for after a scroll to
    /// `up_to`: that many, as far as the file has rows.
    pub open spec fn rows_owed(hunks: Seq<HunkView>, up_to: usize) -> int {
        if up_to <= flat_len(hunks) {
            up_to as int
        } else {
            flat_len(hunks) as int
        }
    }

    /// How the files after colours for a path were made sure of relate to
    /// the files before. The colours are those of the diff's file with that
    /// path; without such a file there are none. Colours kept for the path
    /// are extended to `up_to`. Otherwise the first colours that the
    /// background computed for the path are used up: they are taken in as
    /// they are where they have one entry for each row of the file, and
    /// dropped where they do not. Failing those, colouring on demand starts
    /// with the grammar for the file and runs up to `up_to`, or there are no
    /// colours where no grammar matches. Nothing else changes. Colours that
    /// are there afterwards are for the path and cover the rows owed, on
    /// both sides.
    pub open spec fn coloured(self, path: Seq<char>, up_to: usize, after: DiffFiles) -> bool {
        &&& after == (DiffFiles {
            highlight_cache: after.highlight_cache,
            bg_highlights: after.bg_highlights,
            ..self
        })
        &&& match self.hunks_of_path(path) {
            None => after.highlight_cache is None && after.bg_highlights == self.bg_highlights,
            Some(hunks) => {
                &&& if !self.needs_colours(path) {
                    &&& after.highlight_cache is Some
                    &&& self.highlight_cache->0.extended_to(after.highlight_cache->0, up_to)
                    &&& after.bg_highlights == self.bg_highlights
                } else {
                    let found = bg_position(self.bg_highlights@, path, 0);
                    &&& after.bg_highlights@ == match found {
                        Some(k) => self.bg_highlights@.remove(k),
                        None => self.bg_highlights@,
                    }
                    &&& if found is Some && self.bg_highlights[found->0].left.len() == flat_len(
                        hunks,
                    ) && self.bg_highlights[found->0].right.len() == flat_len(hunks) {
                        let k = found->0;
                        &&& after.highlight_cache is Some
                        &&& after.highlight_cache->0.incremental is None
                        &&& after.highlight_cache->0.left_colors == self.bg_highlights[k].left
                        &&& after.highlight_cache->0.right_colors == self.bg_highlights[k].right
                    } else {
                        let left = highlight_lines(hunks, DiffSide::Left);
                        let right = highlight_lines(hunks, DiffSide::Right);
                        let starts = hunk_starts(hunks);
                        let grammar = self.highlighter.file_grammar(path, left, starts);
                        &&& after.highlight_cache is Some <==> grammar is Some
                        &&& after.highlight_cache is Some ==> {
                            let cache = after.highlight_cache->0;
                            &&& cache.incremental is Some
                            &&& Some(cache.incremental->0.grammar) == grammar
                            &&& cache.processed_up_to == Self::rows_owed(hunks, up_to)
                        }
                    }
                }
                &&& after.highlight_cache matches Some(cache) ==> {
                    &&& cache.file_path@ == path
                    &&& cache.processed_up_to >= Self::rows_owed(hunks, up_to)
                    &&& cache.left_colors.len() == cache.processed_up_to
                    &&& cache.right_colors.len() == cache.processed_up_to
                }
            },
        }
    }

    /// A scroll straight to a row is coloured: after colours were made
    /// sure of up to row `up_to` of a file of the diff that has that many
    /// rows and a grammar, there are colours for the file, and they cover
    /// every row below `up_to` on both sides.
    pub proof fn lemma_scrolled_rows_are_coloured(
        self,
        path: Seq<char>,
        up_to: usize,
        after: DiffFiles,
    )
        requires
            self.coloured(path, up_to, after),
            self.hunks_of_path(path) is Some,
            up_to <= flat_len(self.hunks_of_path(path)->0),
            self.highlighter.file_grammar(
                path,
                highlight_lines(self.hunks_of_path(path)->0, DiffSide::Left),
                hunk_starts(self.hunks_of_path(path)->0),
            ) is Some,
        ensures
            after.highlight_cache is Some,
            after.highlight_cache->0.file_path@ == path,
            after.highlight_cache->0.left_colors.len() >= up_to,
            after.highlight_cache->0.right_colors.len() >= up_to,
    {
    }

    fn find_file(&self, path: &str) -> (r: Option<usize>)
        ensures
            match r {
                Some(i) => i < self.diff_state.files.len() && file_position(
                    self.diff_state.files.deep_view(),
                    path@,
                    0,
                ) == Some(i as int),
                None => file_position(self.diff_state.files.deep_view(), path@, 0) is None,
            },
    {
        let ghost files = self.diff_state.files.deep_view();
        let mut i: usize = 0;
        while i < self.diff_state.files.len()
            invariant
                i <= self.diff_state.files.len(),
                files == self.diff_state.files.deep_view(),
                file_position(files, path@, i as int) == file_position(files, path@, 0),
            decreases self.diff_state.files.len() - i,
        {
            assert(files[i as int] == self.diff_state.files[i as int].deep_view());
            if same_text(self.diff_state.files[i].path.as_str(), path) {
                return Some(i);
            }
            i += 1;
        }
        None
    }

    /// Makes sure that colours for the diff's file with the path of `file`
    /// are there up to row `up_to`.
    pub fn ensure_file_highlight(&mut self, file: &FileDiff, up_to: usize)
        requires
            old(self).wf(),
        ensures
            final(self).wf(),
            old(self).coloured(file.path@, up_to, *final(self)),
    {
        reveal(DiffFiles::wf);
        let at = match self.find_file(file.path.as_str()) {
            Some(at) => at,
            None => {
                self.highlight_cache = None;
                return;
            },
        };
        let ghost hunks = self.diff_state.files[at as int].deep_view().hunks;
        assert(self.hunks_of_path(file.path@) == Some(hunks));
        proof {
            crate::diff::lemma_highlight_lines_len(hunks, DiffSide::Left);
            crate::diff::lemma_highlight_lines_len(hunks, DiffSide::Right);
        }
        let needs_init = match &self.highlight_cache {
            Some(c) => !same_text(c.file_path.as_str(), file.path.as_str()),
            None => true,
        };
        if needs_init {
            let (left, right, starts) = highlight_input(&self.diff_state.files[at]);
            let rows = left.len();
            let computed = match self.find_bg(file.path.as_str()) {
                Some(k) => {
                    let entry = self.bg_highlights.remove(k);
                    if entry.left.len() == rows && entry.right.len() == rows {
                        Some(entry)
                    } else {
                        None
                    }
                },
                None => None,
            };
            match computed {
                Some(entry) => {
                    self.highlight_cache = Some(
                        HighlightCache::from_precomputed(
                            file.path.clone(),
                            entry.left,
                            entry.right,
                        ),
                    );
                    return;
                },
                None => {},
            }
            self.highlight_cache = self.highlighter.create_cache(
                file.path.as_str(),
                left,
                right,
                starts,
            );
        }
        match self.highlight_cache.take() {
            Some(cache) => {
                let mut cache = cache;
                self.highlighter.extend_cache(&mut cache, up_to);
                self.highlight_cache = Some(cache);
            },
            None => {},
        }
    }
}

} // verus!
