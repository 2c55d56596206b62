//! The application state: one owned aggregate that every key press is
//! applied to. The diff view's modal engine, the search, the file tree and
//! the list panes meet here. Outside work is asked of the shell through
//! `Request` values and comes back through the methods they name.

use crate::cursor::{clamp, CursorPos, DiffSide, DiffViewMode};
use crate::diff::{flat_len, DiffState, FileDiff, HunkView};
use crate::files::DiffFiles;
use crate::github::state::GitHubState;
use crate::modal::DiffViewState;
use crate::repository::{BranchInfo, CommitInfo, ReflogEntry};
use crate::request::{Request, RequestView};
use crate::search::{
    diff_matches, next_index, occurs_in, search_diff, step_match_index, text_matches, SearchMatch,
    SearchOrigin, SearchState, SearchStateView,
};
use crate::text::{chars_of, decimal, lowercase, push_decimal, push_text};
use crate::tree::{paths_of, TreeEntry, TreeEntryView};
use vstd::prelude::*;

verus! {

/// The two views of the application.
#[derive(Debug, Clone, Copy, PartialEq, Eq, Structural)]
pub enum ViewMode {
    Git,
    GitHub,
}

/// The panes of the Git view that can have the focus.
#[derive(Debug, Clone, Copy, PartialEq, Eq, Structural)]
pub enum FocusedPane {
    FileTree,
    BranchList,
    GitLog,
    Reflog,
    DiffView,
}

/// The local branches and the one that is selected.
pub struct BranchListState {
    pub branches: Vec<BranchInfo>,
    pub selected_idx: usize,
}

/// The commits of the ref that is shown, and how far the log is scrolled.
pub struct GitLogState {
    pub commits: Vec<CommitInfo>,
    pub scroll: u16,
    pub ref_name: String,
}

/// The entries of the reflog, the one that is selected, and the height of the
/// pane.
pub struct ReflogState {
    pub entries: Vec<ReflogEntry>,
    pub selected_idx: usize,
    pub view_height: u16,
}

/// What the menu of branch actions offers.
#[derive(Debug, Clone, Copy, PartialEq, Eq, Structural)]
pub enum BranchAction {
    Switch,
    Delete,
    DiffBase,
}

impl BranchAction {
    /// The actions in the order of the menu.
    pub open spec fn all() -> Seq<BranchAction> {
        seq![BranchAction::Switch, BranchAction::Delete, BranchAction::DiffBase]
    }

    /// The action at a position of the menu.
    pub fn at(idx: usize) -> (r: Option<BranchAction>)
        ensures
            idx < 3 ==> r == Some(Self::all()[idx as int]),
            idx >= 3 ==> r is None,
    {
        if idx == 0 {
            Some(BranchAction::Switch)
        } else if idx == 1 {
            Some(BranchAction::Delete)
        } else if idx == 2 {
            Some(BranchAction::DiffBase)
        } else {
            None
        }
    }

    /// What the menu calls an action.
    pub open spec fn label_of(self) -> Seq<char> {
        match self {
            BranchAction::Switch => "Switch"@,
            BranchAction::Delete => "Delete"@,
            BranchAction::DiffBase => "Set as diff base"@,
        }
    }

    /// The key that picks an action in the menu.
    pub open spec fn key_of(self) -> char {
        match self {
            BranchAction::Switch => 's',
            BranchAction::Delete => 'd',
            BranchAction::DiffBase => 'b',
        }
    }

    /// What the menu calls the action.
    pub fn label(self) -> (s: &'static str)
        ensures
            s@ == self.label_of(),
    {
        match self {
            BranchAction::Switch => "Switch",
            BranchAction::Delete => "Delete",
            BranchAction::DiffBase => "Set as diff base",
        }
    }

    /// The key that picks the action in the menu.
    pub fn key(self) -> (c: char)
        ensures
            c == self.key_of(),
    {
        match self {
            BranchAction::Switch => 's',
            BranchAction::Delete => 'd',
            BranchAction::DiffBase => 'b',
        }
    }
}

/// The open menu of branch actions: the branch it is for and the action that is
/// selected.
pub struct BranchActionMenuState {
    pub branch_name: String,
    pub is_head: bool,
    pub selected_idx: usize,
}

/// The open error dialog.
pub struct ErrorDialogState {
    pub title: String,
    pub message: String,
}

/// The whole state of the application.
pub struct App {
    pub should_quit: bool,
    pub view_mode: ViewMode,
    /// The diff, the selection in the file tree, and what is kept per file.
    pub files: DiffFiles,
    pub focused_pane: FocusedPane,
    pub previous_pane: FocusedPane,
    /// Mode, cursor, selection, pending keys and scroll position of the diff view.
    pub diff: DiffViewState,
    pub show_help: bool,
    pub status_message: Option<String>,
    /// The note to show once the diff against the default base has been
    /// read, after the chosen base could not be resolved.
    pub fallback_note: Option<String>,
    pub diff_base_ref: Option<String>,
    pub branch_list: BranchListState,
    pub git_log: GitLogState,
    pub reflog: ReflogState,
    pub branch_action_menu: Option<BranchActionMenuState>,
    pub error_dialog: Option<ErrorDialogState>,
    pub search: SearchState,
    pub github: GitHubState,
}

impl App {
    /// The flattened content on the cursor's side: the coordinate space of
    /// the cursor.
    pub open spec fn lines(self) -> Seq<Seq<char>> {
        self.files.lines_on(self.diff.cursor_pos.side)
    }

    /// The state is consistent: what is kept per file agrees with what it
    /// was computed from.
    pub open spec fn wf(self) -> bool {
        self.files.wf()
    }

    /// The state at start-up, for a diff that has been read.
    pub fn new(diff_state: DiffState) -> (app: Self)
        ensures
            app.wf(),
            app.files.diff_state == diff_state,
            app.files.selected_tree_idx == 0,
            app.files.collapsed_dirs@.len() == 0,
            app.files.highlight_cache is None,
            !app.should_quit,
            app.view_mode == ViewMode::Git,
            app.focused_pane == FocusedPane::FileTree,
            app.previous_pane == FocusedPane::FileTree,
            app.diff == DiffViewState::initial(),
            !app.show_help,
            app.status_message is None,
            app.fallback_note is None,
            app.diff_base_ref is None,
            app.branch_action_menu is None,
            app.error_dialog is None,
            app.search.deep_view() == SearchStateView::initial(),
            app.files.content_lines_cache is None,
            app.files.bg_highlights@.len() == 0,
            app.branch_list.branches@.len() == 0,
            app.branch_list.selected_idx == 0,
            app.reflog.entries@.len() == 0,
            app.reflog.selected_idx == 0,
            app.reflog.view_height == 0,
            app.git_log.commits@.len() == 0,
            app.git_log.scroll == 0,
            app.git_log.ref_name@.len() == 0,
            app.github.is_fresh(),
    {
        Self {
            should_quit: false,
            view_mode: ViewMode::Git,
            files: DiffFiles::new(diff_state),
            focused_pane: FocusedPane::FileTree,
            previous_pane: FocusedPane::FileTree,
            diff: DiffViewState::new(),
            show_help: false,
            status_message: None,
            fallback_note: None,
            diff_base_ref: None,
            branch_list: BranchListState { branches: Vec::new(), selected_idx: 0 },
            git_log: GitLogState { commits: Vec::new(), scroll: 0, ref_name: String::new() },
            reflog: ReflogState { entries: Vec::new(), selected_idx: 0, view_height: 0 },
            branch_action_menu: None,
            error_dialog: None,
            search: SearchState::new(),
            github: GitHubState::new(),
        }
    }

    /// Builds the entries of the file tree.
    pub fn build_tree_entries(&self) -> (entries: Vec<TreeEntry>)
        ensures
            entries.deep_view() == self.files.tree(),
    {
        self.files.build_tree_entries()
    }

    /// The selected file, if the selected tree entry is a file.
    pub fn selected_file(&self) -> (r: Option<&FileDiff>)
        ensures
            match r {
                Some(file) => self.files.selected_index() is Some && *file
                    == self.files.diff_state.files[self.files.selected_index()->0 as int]
                    && file.deep_view().hunks == self.files.selected_hunks(),
                None => self.files.selected_index() is None,
            },
    {
        self.files.selected_file()
    }

    /// The state with other files and everything else as it is.
    pub open spec fn with_files(self, files: DiffFiles) -> App {
        App { files, ..self }
    }

    /// The flattened content of the selected file on the cursor's side;
    /// empty where no file is selected.
    pub fn content_lines(&mut self) -> (lines: Vec<String>)
        requires
            old(self).wf(),
        ensures
            final(self).wf(),
            lines.deep_view() == old(self).lines(),
            lines.len() == flat_len(old(self).files.selected_hunks()),
            old(self).files.same_but_content(final(self).files),
            *final(self) == old(self).with_files(final(self).files),
    {
        self.files.content_lines(self.diff.cursor_pos.side)
    }

    /// Makes sure that colours for the diff's file with the path of `file`
    /// are there up to row `up_to`: colours kept for the file are extended;
    /// otherwise colours from the background are taken in, or colouring on
    /// demand starts. Colours that are there afterwards cover the rows
    /// below `up_to`, as far as the file has rows.
    pub fn ensure_file_highlight(&mut self, file: &FileDiff, up_to: usize)
        requires
            old(self).wf(),
        ensures
            final(self).wf(),
            *final(self) == old(self).with_files(final(self).files),
            old(self).files.coloured(file.path@, up_to, final(self).files),
    {
        self.files.ensure_file_highlight(file, up_to);
    }

    /// Takes in colours that the background computed for a file; they
    /// are dropped where colours for the file are kept already.
    pub fn drain_bg_highlights(
        &mut self,
        path: String,
        left: Vec<Vec<crate::syntax::Rgb>>,
        right: Vec<Vec<crate::syntax::Rgb>>,
    )
        requires
            old(self).wf(),
        ensures
            final(self).wf(),
            *final(self) == old(self).with_files(final(self).files),
            old(self).files.bg_added(
                crate::files::BgHighlight { path, left, right },
                final(self).files,
            ),
    {
        self.files.add_bg_highlight(path, left, right);
    }

    /// Gives the focus to `pane` and remembers where it came from.
    pub fn set_focus(&mut self, pane: FocusedPane)
        ensures
            *final(self) == (App {
                previous_pane: old(self).focused_pane,
                focused_pane: pane,
                ..*old(self)
            }),
    {
        self.previous_pane = self.focused_pane;
        self.focused_pane = pane;
    }
}

/// The matches among the first `n` items of a list: one for each item
/// that `hit` accepts, as `make` builds it, in the order of the list.
pub open spec fn list_hits(
    n: int,
    hit: spec_fn(int) -> bool,
    make: spec_fn(int) -> SearchMatch,
) -> Seq<SearchMatch>
    decreases n,
{
    if n <= 0 {
        Seq::empty()
    } else if hit(n - 1) {
        list_hits(n - 1, hit, make).push(make(n - 1))
    } else {
        list_hits(n - 1, hit, make)
    }
}

/// The text a commit is searched in: hash, author, date and message with
/// blanks between them.
pub open spec fn commit_text(commit: CommitInfo) -> Seq<char> {
    commit.short_hash@ + seq![' '] + commit.author@ + seq![' '] + commit.date@ + seq![' ']
        + commit.message@
}

/// Whether a reflog entry holds the needle in one of its four texts.
pub open spec fn reflog_hit(entry: ReflogEntry, needle: Seq<char>) -> bool {
    occurs_in(lowercase(entry.short_hash@), needle) || occurs_in(
        lowercase(entry.selector@),
        needle,
    ) || occurs_in(lowercase(entry.action@), needle) || occurs_in(
        lowercase(entry.message@),
        needle,
    )
}

/// The name a tree entry is searched by: a directory's path, a file's
/// path; none for a file entry without a file.
pub open spec fn entry_name(tree: Seq<TreeEntryView>, paths: Seq<Seq<char>>, idx: int) -> Option<
    Seq<char>,
> {
    match tree[idx] {
        TreeEntryView::Dir { path, .. } => Some(path),
        TreeEntryView::File { file_idx, .. } => if file_idx < paths.len() {
            Some(paths[file_idx as int])
        } else {
            None
        },
    }
}

/// The tree entries whose name holds the needle.
pub open spec fn tree_hits(tree: Seq<TreeEntryView>, paths: Seq<Seq<char>>, needle: Seq<char>) -> Seq<
    SearchMatch,
> {
    list_hits(
        tree.len() as int,
        |i: int|
            entry_name(tree, paths, i) is Some && occurs_in(
                lowercase(entry_name(tree, paths, i)->0),
                needle,
            ),
        |i: int| SearchMatch::TreeEntry(i as usize),
    )
}

/// The commits whose text holds the needle.
pub open spec fn commit_hits(commits: Seq<CommitInfo>, needle: Seq<char>) -> Seq<SearchMatch> {
    list_hits(
        commits.len() as int,
        |i: int| occurs_in(lowercase(commit_text(commits[i])), needle),
        |i: int| SearchMatch::CommitEntry(i as usize),
    )
}

/// The branches whose name holds the needle.
pub open spec fn branch_hits(branches: Seq<BranchInfo>, needle: Seq<char>) -> Seq<SearchMatch> {
    list_hits(
        branches.len() as int,
        |i: int| occurs_in(lowercase(branches[i].name@), needle),
        |i: int| SearchMatch::BranchEntry(i as usize),
    )
}

/// The reflog entries that hold the needle.
pub open spec fn reflog_hits(entries: Seq<ReflogEntry>, needle: Seq<char>) -> Seq<SearchMatch> {
    list_hits(
        entries.len() as int,
        |i: int| reflog_hit(entries[i], needle),
        |i: int| SearchMatch::ReflogEntry(i as usize),
    )
}

impl App {
    /// The matches of `query` in the pane that `origin` names, without
    /// regard to case, in the order of the pane.
    pub open spec fn origin_matches(self, origin: SearchOrigin, query: Seq<char>) -> Seq<
        SearchMatch,
    > {
        let needle = lowercase(query);
        match origin {
            SearchOrigin::DiffView => diff_matches(self.files.selected_hunks(), query),
            SearchOrigin::FileTree => tree_hits(
                self.files.tree(),
                paths_of(self.files.diff_state.files.deep_view()),
                needle,
            ),
            SearchOrigin::CommitLog => commit_hits(self.git_log.commits@, needle),
            SearchOrigin::BranchList => branch_hits(self.branch_list.branches@, needle),
            SearchOrigin::Reflog => reflog_hits(self.reflog.entries@, needle),
        }
    }

    fn find_tree_matches(&self, needle: &Vec<char>) -> (matches: Vec<SearchMatch>)
        ensures
            matches@ == tree_hits(
                self.files.tree(),
                paths_of(self.files.diff_state.files.deep_view()),
                needle@,
            ),
    {
        let mut matches: Vec<SearchMatch> = Vec::new();
        let entries = self.build_tree_entries();
        let ghost tree = self.files.tree();
        let ghost paths = paths_of(self.files.diff_state.files.deep_view());
        let ghost hit = |i: int|
            entry_name(tree, paths, i) is Some && occurs_in(
                lowercase(entry_name(tree, paths, i)->0),
                needle@,
            );
        let ghost make = |i: int| SearchMatch::TreeEntry(i as usize);
        let mut i: usize = 0;
        while i < entries.len()
            invariant
                i <= entries.len(),
                entries.deep_view() == tree,
                paths == paths_of(self.files.diff_state.files.deep_view()),
                hit == (|i: int|
                    entry_name(tree, paths, i) is Some && occurs_in(
                        lowercase(entry_name(tree, paths, i)->0),
                        needle@,
                    )),
                make == (|i: int| SearchMatch::TreeEntry(i as usize)),
                matches@ == list_hits(i as int, hit, make),
            decreases entries.len() - i,
        {
            assert(tree[i as int] == entries[i as int].deep_view());
            let found = match &entries[i] {
                TreeEntry::Dir { path, .. } => text_matches(path.as_str(), needle),
                TreeEntry::File { file_idx, .. } => {
                    if *file_idx < self.files.diff_state.files.len() {
                        assert(paths[*file_idx as int]
                            == self.files.diff_state.files[*file_idx as int].path@);
                        text_matches(self.files.diff_state.files[*file_idx].path.as_str(), needle)
                    } else {
                        false
                    }
                },
            };
            assert(found == hit(i as int));
            if found {
                matches.push(SearchMatch::TreeEntry(i));
            }
            i += 1;
        }
        matches
    }

    fn find_commit_matches(&self, needle: &Vec<char>) -> (matches: Vec<SearchMatch>)
        ensures
            matches@ == commit_hits(self.git_log.commits@, needle@),
    {
        let mut matches: Vec<SearchMatch> = Vec::new();
        let ghost commits = self.git_log.commits@;
        let ghost hit = |i: int| occurs_in(lowercase(commit_text(commits[i])), needle@);
        let ghost make = |i: int| SearchMatch::CommitEntry(i as usize);
        let mut i: usize = 0;
        while i < self.git_log.commits.len()
            invariant
                i <= self.git_log.commits.len(),
                commits == self.git_log.commits@,
                hit == (|i: int| occurs_in(lowercase(commit_text(commits[i])), needle@)),
                make == (|i: int| SearchMatch::CommitEntry(i as usize)),
                matches@ == list_hits(i as int, hit, make),
            decreases self.git_log.commits.len() - i,
        {
            let commit = &self.git_log.commits[i];
            let mut text = commit.short_hash.clone();
            text.push(' ');
            push_text(&mut text, commit.author.as_str());
            text.push(' ');
            push_text(&mut text, commit.date.as_str());
            text.push(' ');
            push_text(&mut text, commit.message.as_str());
            assert(text@ =~= commit_text(*commit));
            let found = text_matches(text.as_str(), needle);
            assert(found == hit(i as int));
            if found {
                matches.push(SearchMatch::CommitEntry(i));
            }
            i += 1;
        }
        matches
    }

    fn find_branch_matches(&self, needle: &Vec<char>) -> (matches: Vec<SearchMatch>)
        ensures
            matches@ == branch_hits(self.branch_list.branches@, needle@),
    {
        let mut matches: Vec<SearchMatch> = Vec::new();
        let ghost branches = self.branch_list.branches@;
        let ghost hit = |i: int| occurs_in(lowercase(branches[i].name@), needle@);
        let ghost make = |i: int| SearchMatch::BranchEntry(i as usize);
        let mut i: usize = 0;
        while i < self.branch_list.branches.len()
            invariant
                i <= self.branch_list.branches.len(),
                branches == self.branch_list.branches@,
                hit == (|i: int| occurs_in(lowercase(branches[i].name@), needle@)),
                make == (|i: int| SearchMatch::BranchEntry(i as usize)),
                matches@ == list_hits(i as int, hit, make),
            decreases self.branch_list.branches.len() - i,
        {
            let found = text_matches(self.branch_list.branches[i].name.as_str(), needle);
            assert(found == hit(i as int));
            if found {
                matches.push(SearchMatch::BranchEntry(i));
            }
            i += 1;
        }
        matches
    }

    fn find_reflog_matches(&self, needle: &Vec<char>) -> (matches: Vec<SearchMatch>)
        ensures
            matches@ == reflog_hits(self.reflog.entries@, needle@),
    {
        let mut matches: Vec<SearchMatch> = Vec::new();
        let ghost log = self.reflog.entries@;
        let ghost hit = |i: int| reflog_hit(log[i], needle@);
        let ghost make = |i: int| SearchMatch::ReflogEntry(i as usize);
        let mut i: usize = 0;
        while i < self.reflog.entries.len()
            invariant
                i <= self.reflog.entries.len(),
                log == self.reflog.entries@,
                hit == (|i: int| reflog_hit(log[i], needle@)),
                make == (|i: int| SearchMatch::ReflogEntry(i as usize)),
                matches@ == list_hits(i as int, hit, make),
            decreases self.reflog.entries.len() - i,
        {
            let entry = &self.reflog.entries[i];
            let found = text_matches(entry.short_hash.as_str(), needle) || text_matches(
                entry.selector.as_str(),
                needle,
            ) || text_matches(entry.action.as_str(), needle) || text_matches(
                entry.message.as_str(),
                needle,
            );
            assert(found == hit(i as int));
            if found {
                matches.push(SearchMatch::ReflogEntry(i));
            }
            i += 1;
        }
        matches
    }

    /// Finds the matches of `query` in the selected file. Every match lies
    /// in the flattened content: its row is a row of the content, and its
    /// columns are the characters of that row's line that it covers, so
    /// that the cursor can be placed on them.
    pub fn search_diff_view(&mut self, query: &str) -> (matches: Vec<SearchMatch>)
        requires
            old(self).wf(),
        ensures
            final(self).wf(),
            matches@ == diff_matches(old(self).files.selected_hunks(), query@),
            forall|k: int|
                0 <= k < matches@.len() ==> crate::search::in_content(
                    #[trigger] matches@[k],
                    old(self).files.lines_on(DiffSide::Left),
                    old(self).files.lines_on(DiffSide::Right),
                    crate::search::folded(query@).len() > 0,
                ),
            old(self).files.same_but_content(final(self).files),
            *final(self) == old(self).with_files(final(self).files),
    {
        // The content has one line per display row: reading it bounds the
        // row numbers that the search hands out.
        let _content = self.content_lines();
        match self.selected_file() {
            Some(file) => search_diff(file, query),
            None => {
                assert(diff_matches(Seq::<HunkView>::empty(), query@) =~= Seq::<
                    SearchMatch,
                >::empty());
                Vec::new()
            },
        }
    }

    /// Finds the matches of `query` in the pane the search started from.
    fn find_origin_matches(&mut self, query: &str) -> (matches: Vec<SearchMatch>)
        requires
            old(self).wf(),
        ensures
            final(self).wf(),
            matches@ == old(self).origin_matches(old(self).search.origin, query@),
            old(self).files.same_but_content(final(self).files),
            *final(self) == old(self).with_files(final(self).files),
    {
        match self.search.origin {
            SearchOrigin::DiffView => self.search_diff_view(query),
            SearchOrigin::FileTree => {
                let lower = query.to_lowercase();
                let needle = chars_of(lower.as_str());
                self.find_tree_matches(&needle)
            },
            SearchOrigin::CommitLog => {
                let lower = query.to_lowercase();
                let needle = chars_of(lower.as_str());
                self.find_commit_matches(&needle)
            },
            SearchOrigin::BranchList => {
                let lower = query.to_lowercase();
                let needle = chars_of(lower.as_str());
                self.find_branch_matches(&needle)
            },
            SearchOrigin::Reflog => {
                let lower = query.to_lowercase();
                let needle = chars_of(lower.as_str());
                self.find_reflog_matches(&needle)
            },
        }
    }

    /// Runs the active query against the pane the search started from:
    /// the matches are replaced and none is current. Without a query the
    /// matches are only cleared.
    pub fn execute_search(&mut self)
        requires
            old(self).wf(),
        ensures
            final(self).wf(),
            final(self).search.current_match_idx is None,
            final(self).search.matches@ == match old(self).search.query {
                Some(q) => old(self).origin_matches(old(self).search.origin, q@),
                None => Seq::empty(),
            },
            old(self).files.same_but_content(final(self).files),
            *final(self) == (App {
                search: SearchState {
                    matches: final(self).search.matches,
                    current_match_idx: None,
                    ..old(self).search
                },
                files: final(self).files,
                ..*old(self)
            }),
    {
        self.search.matches = Vec::new();
        self.search.current_match_idx = None;
        let query = match &self.search.query {
            Some(q) => q.clone(),
            None => {
                return;
            },
        };
        let found = self.find_origin_matches(query.as_str());
        self.search.matches = found;
    }
}

/// The status text after a jump: the position of the match among all
/// matches, as `[position/total]`.
pub open spec fn match_status(idx: int, total: int) -> Seq<char> {
    seq!['['] + decimal((idx + 1) as nat) + seq!['/'] + decimal(total as nat) + seq![']']
}

/// How the clipboard collaborator fared.
#[derive(Debug, Clone, Copy, PartialEq, Eq, Structural)]
pub enum ClipboardOutcome {
    /// The text is on the clipboard.
    Copied,
    /// There is a clipboard, but it did not take the text.
    Failed,
    /// There is no clipboard.
    Unavailable,
}

/// The number of lines of a text as `str::lines` counts them: a line
/// starts at the start of the text and behind every line feed that is not
/// the text's last character.
pub open spec fn line_count(text: Seq<char>) -> nat
    decreases text.len(),
{
    if text.len() == 0 {
        0
    } else {
        line_count(text.drop_last()) + if text.len() == 1 || text[text.len() - 2] == '\n' {
            1nat
        } else {
            0nat
        }
    }
}

/// The status text after a yank.
pub open spec fn yank_status(text: Seq<char>, outcome: ClipboardOutcome) -> Seq<char> {
    match outcome {
        ClipboardOutcome::Copied => {
            let n = if line_count(text) >= 1 {
                line_count(text)
            } else {
                1
            };
            "Yanked "@ + decimal(n) + " line"@ + if n == 1 {
                ""@
            } else {
                "s"@
            }
        },
        ClipboardOutcome::Failed => "Clipboard error"@,
        ClipboardOutcome::Unavailable => "Clipboard unavailable"@,
    }
}

fn count_lines(text: &str) -> (n: usize)
    ensures
        n == line_count(text@),
{
    let chars = chars_of(text);
    let mut n: usize = 0;
    let mut i: usize = 0;
    assert(chars@.take(0) =~= Seq::<char>::empty());
    while i < chars.len()
        invariant
            i <= chars.len(),
            n <= i,
            n == line_count(chars@.take(i as int)),
        decreases chars.len() - i,
    {
        let ghost next = chars@.take(i + 1);
        proof {
            assert(next.drop_last() =~= chars@.take(i as int));
            assert(next.last() == chars@[i as int]);
            if i > 0 {
                assert(next[next.len() - 2] == chars@[i - 1]);
            }
        }
        let starts_line = i == 0 || chars[i - 1] == '\n';
        if starts_line {
            n += 1;
        }
        i += 1;
    }
    assert(chars@.take(i as int) =~= chars@);
    n
}

impl App {
    /// The query a jump works with: the active one, or else the last
    /// confirmed one.
    pub open spec fn jump_query(self) -> Option<Seq<char>> {
        match self.search.query {
            Some(q) => Some(q@),
            None => self.search.last_query.deep_view(),
        }
    }

    /// The matches a jump works with: those of the active query; where
    /// only a last query is there, those of running it again.
    pub open spec fn jump_matches(self) -> Seq<SearchMatch> {
        match (self.search.query, self.search.last_query) {
            (None, Some(q)) => self.origin_matches(self.search.origin, q@),
            _ => self.search.matches@,
        }
    }

    /// The current match a jump starts from: none after running the last
    /// query again.
    pub open spec fn jump_start(self) -> Option<usize> {
        match (self.search.query, self.search.last_query) {
            (None, Some(q)) => None,
            _ => self.search.current_match_idx,
        }
    }

    /// The index of the match a jump goes to, if there is a query and it
    /// has matches.
    pub open spec fn jump_target(self, forward: bool) -> Option<int> {
        if self.jump_query() is Some && self.jump_matches().len() > 0 {
            Some(next_index(self.jump_start(), self.jump_matches().len() as int, forward))
        } else {
            None
        }
    }

    /// The name of the selected branch, if one is selected.
    pub open spec fn selected_branch(self) -> Option<Seq<char>> {
        if self.branch_list.selected_idx < self.branch_list.branches.len() {
            Some(self.branch_list.branches[self.branch_list.selected_idx as int].name@)
        } else {
            None
        }
    }

    /// Whether the selected branch is the one that is checked out.
    pub open spec fn head_selected(self) -> bool {
        self.branch_list.selected_idx < self.branch_list.branches.len()
            && self.branch_list.branches[self.branch_list.selected_idx as int].is_head
    }

    /// The commits shown follow the selected branch: its name is noted and
    /// its commits are asked for; without a selected branch the log is empty.
    pub fn update_branch_log(&mut self) -> (request: Request)
        ensures
            match old(self).selected_branch() {
                Some(name) => {
                    &&& request.deep_view() == RequestView::LoadBranchLog(name)
                    &&& final(self).git_log.ref_name@ == name
                    &&& final(self).git_log.scroll == 0
                    &&& final(self).git_log.commits == old(self).git_log.commits
                },
                None => {
                    &&& request is Nothing
                    &&& final(self).git_log.ref_name@.len() == 0
                    &&& final(self).git_log.commits@.len() == 0
                    &&& final(self).git_log.scroll == old(self).git_log.scroll
                },
            },
            *final(self) == (App { git_log: final(self).git_log, ..*old(self) }),
    {
        if self.branch_list.selected_idx < self.branch_list.branches.len() {
            let name = self.branch_list.branches[self.branch_list.selected_idx].name.clone();
            self.git_log.ref_name = name.clone();
            self.git_log.scroll = 0;
            Request::LoadBranchLog(name)
        } else {
            self.git_log.commits = Vec::new();
            self.git_log.ref_name = String::new();
            Request::Nothing
        }
    }

    /// Takes in the commits of the branch that `update_branch_log` asked for.
    pub fn set_branch_log(&mut self, commits: Vec<CommitInfo>)
        ensures
            *final(self) == (App {
                git_log: GitLogState { commits, ..old(self).git_log },
                ..*old(self)
            }),
    {
        self.git_log.commits = commits;
    }

    /// The diff view after it was placed on a match at this row, column
    /// and side: in Scroll mode the view scrolls so that the row stands a
    /// third of the height below the top; otherwise the cursor goes to the
    /// start of the match, inside the content, and the view follows it.
    pub open spec fn diff_on_match(self, row: usize, col_start: usize, side: DiffSide) -> DiffViewState {
        if self.diff.mode == DiffViewMode::Scroll {
            DiffViewState {
                scroll_y: (if row >= self.diff.view_height / 3 {
                    row - self.diff.view_height / 3
                } else {
                    0
                }) as u16,
                ..self.diff
            }
        } else {
            (DiffViewState {
                cursor_pos: CursorPos { row, col: col_start, side },
                ..self.diff
            }).with_cursor_clamped(self.files.lines_on(side)).scrolled_to_cursor()
        }
    }

    /// The diff view after the panes were placed on the match `hit`: moved
    /// for a match in the diff, as it is for a match in a list.
    pub open spec fn placed_diff(self, hit: SearchMatch) -> DiffViewState {
        match hit {
            SearchMatch::DiffLine { row, col_start, side, .. } => self.diff_on_match(
                row,
                col_start,
                side,
            ),
            _ => self.diff,
        }
    }

    /// How the state after placing the panes on the match `hit` relates to
    /// the state before: a match in the diff moves the diff view; a match
    /// in a list selects the item, and for a branch asks for its commits.
    /// Whatever the match does not concern stays as it is.
    pub open spec fn placed_on(self, hit: SearchMatch, after: App, request: RequestView) -> bool {
        &&& after.diff == self.placed_diff(hit)
        &&& match hit {
            SearchMatch::DiffLine { .. } => {
                &&& request is Nothing
                &&& self.files.same_but_content(after.files)
                &&& after.git_log == self.git_log
                &&& after.branch_list == self.branch_list
                &&& after.reflog == self.reflog
            },
            SearchMatch::TreeEntry(idx) => {
                &&& request is Nothing
                &&& after.files == (DiffFiles {
                    selected_tree_idx: idx,
                    content_lines_cache: None,
                    ..self.files
                })
                &&& after.git_log == self.git_log
                &&& after.branch_list == self.branch_list
                &&& after.reflog == self.reflog
            },
            SearchMatch::CommitEntry(idx) => {
                &&& request is Nothing
                &&& self.files.same_but_content(after.files)
                &&& after.git_log == (GitLogState { scroll: idx as u16, ..self.git_log })
                &&& after.branch_list == self.branch_list
                &&& after.reflog == self.reflog
            },
            SearchMatch::BranchEntry(idx) => {
                &&& self.files.same_but_content(after.files)
                &&& after.branch_list == (BranchListState {
                    selected_idx: idx,
                    ..self.branch_list
                })
                &&& after.reflog == self.reflog
                &&& if idx < self.branch_list.branches.len() {
                    &&& request == RequestView::LoadBranchLog(
                        self.branch_list.branches[idx as int].name@,
                    )
                    &&& after.git_log.ref_name@ == self.branch_list.branches[idx as int].name@
                    &&& after.git_log.scroll == 0
                    &&& after.git_log.commits == self.git_log.commits
                } else {
                    &&& request is Nothing
                    &&& after.git_log.ref_name@.len() == 0
                    &&& after.git_log.commits@.len() == 0
                    &&& after.git_log.scroll == self.git_log.scroll
                }
            },
            SearchMatch::ReflogEntry(idx) => {
                &&& request is Nothing
                &&& self.files.same_but_content(after.files)
                &&& after.git_log == self.git_log
                &&& after.branch_list == self.branch_list
                &&& after.reflog == (ReflogState { selected_idx: idx, ..self.reflog })
            },
        }
    }

    /// How the state after a jump relates to the state before. Without a
    /// query nothing changes (but, at most, the content that is kept). Otherwise the query is active with its
    /// matches; without matches the status says so; with matches the target
    /// is the current match, the panes are placed on it, and the status
    /// tells its position. Nothing else changes.
    #[verifier::opaque]
    pub open spec fn jump_post(self, forward: bool, after: App, request: RequestView) -> bool {
        &&& self.jump_query() is None ==> after == self.with_files(after.files)
            && self.files.same_but_content(after.files) && request is Nothing
        &&& after.search.deep_view() == (SearchStateView {
            query: self.jump_query(),
            matches: self.jump_matches(),
            current_match_idx: after.search.current_match_idx,
            ..self.search.deep_view()
        })
        &&& after == (App {
            search: after.search,
            status_message: after.status_message,
            files: after.files,
            diff: after.diff,
            git_log: after.git_log,
            branch_list: after.branch_list,
            reflog: after.reflog,
            ..self
        })
        &&& after.files.diff_state == self.files.diff_state
        &&& after.files.collapsed_dirs == self.files.collapsed_dirs
        &&& after.diff.mode == self.diff.mode
        &&& self.jump_query() is Some && self.jump_matches().len() == 0 ==> {
            &&& request is Nothing
            &&& after.status_message.deep_view() == Some("Pattern not found"@)
            &&& after.search.current_match_idx == self.jump_start()
            &&& after.diff == self.diff
            &&& self.files.same_but_content(after.files)
            &&& after.git_log == self.git_log
            &&& after.branch_list == self.branch_list
            &&& after.reflog == self.reflog
        }
        &&& self.jump_target(forward) matches Some(target) ==> {
            &&& 0 <= target < self.jump_matches().len()
            &&& after.search.current_match_idx == Some(target as usize)
            &&& after.status_message.deep_view() == Some(
                match_status(target, self.jump_matches().len() as int),
            )
            &&& self.placed_on(self.jump_matches()[target], after, request)
        }
    }

    fn go_to_diff_match(&mut self, row: usize, col_start: usize, side: DiffSide)
        requires
            old(self).wf(),
        ensures
            final(self).wf(),
            final(self).diff == old(self).diff_on_match(row, col_start, side),
            old(self).files.same_but_content(final(self).files),
            final(self).diff.mode == old(self).diff.mode,
            *final(self) == (App { diff: final(self).diff, files: final(self).files, ..*old(self) }),
    {
        if self.diff.mode == DiffViewMode::Scroll {
            let third: usize = (self.diff.view_height / 3).into();
            let top = row.saturating_sub(third);
            self.diff.scroll_y = #[verifier::truncate] (top as u16);
        } else {
            self.diff.cursor_pos = CursorPos { row, col: col_start, side };
            let lines = self.content_lines();
            if lines.len() > 0 {
                self.diff.cursor_pos = clamp(self.diff.cursor_pos, &lines);
            }
            self.diff.scroll_to_cursor();
        }
    }

    /// Places the panes on a match.
    fn place_on_match(&mut self, hit: SearchMatch) -> (request: Request)
        requires
            old(self).wf(),
        ensures
            final(self).wf(),
            old(self).placed_on(hit, *final(self), request.deep_view()),
            final(self).diff.mode == old(self).diff.mode,
            final(self).files.diff_state == old(self).files.diff_state,
            final(self).files.collapsed_dirs == old(self).files.collapsed_dirs,
            *final(self) == (App {
                files: final(self).files,
                diff: final(self).diff,
                git_log: final(self).git_log,
                branch_list: final(self).branch_list,
                reflog: final(self).reflog,
                ..*old(self)
            }),
    {
        match hit {
            SearchMatch::DiffLine { row, col_start, side, .. } => {
                self.go_to_diff_match(row, col_start, side);
                Request::Nothing
            },
            SearchMatch::TreeEntry(idx) => {
                self.files.select(idx);
                Request::Nothing
            },
            SearchMatch::CommitEntry(idx) => {
                self.git_log.scroll = #[verifier::truncate] (idx as u16);
                Request::Nothing
            },
            SearchMatch::BranchEntry(idx) => {
                self.branch_list.selected_idx = idx;
                self.update_branch_log()
            },
            SearchMatch::ReflogEntry(idx) => {
                self.reflog.selected_idx = idx;
                Request::Nothing
            },
        }
    }

    /// Makes sure a jump has a query to work with: without an active
    /// query the last confirmed one becomes active and is run again.
    fn requery(&mut self) -> (ready: bool)
        requires
            old(self).wf(),
        ensures
            final(self).wf(),
            ready == old(self).jump_query() is Some,
            !ready ==> *final(self) == *old(self),
            final(self).search.query.deep_view() == old(self).jump_query(),
            final(self).search.matches@ == old(self).jump_matches(),
            final(self).search.current_match_idx == old(self).jump_start(),
            old(self).files.same_but_content(final(self).files),
            *final(self) == (App {
                search: SearchState {
                    query: final(self).search.query,
                    matches: final(self).search.matches,
                    current_match_idx: final(self).search.current_match_idx,
                    ..old(self).search
                },
                files: final(self).files,
                ..*old(self)
            }),
    {
        if self.search.query.is_none() {
            match &self.search.last_query {
                Some(last) => {
                    self.search.query = Some(last.clone());
                    self.execute_search();
                    true
                },
                None => false,
            }
        } else {
            true
        }
    }

    /// Goes to the next or the previous match, cyclically. Without an
    /// active query the last confirmed query is run again first; without
    /// either nothing happens. Without matches the status says so.
    /// Otherwise the match becomes the current one, the pane it lies in is
    /// placed on it, and the status tells its position.
    pub fn jump_to_match(&mut self, forward: bool) -> (request: Request)
        requires
            old(self).wf(),
        ensures
            final(self).wf(),
            old(self).jump_post(forward, *final(self), request.deep_view()),
            final(self).files.diff_state == old(self).files.diff_state,
            final(self).files.collapsed_dirs == old(self).files.collapsed_dirs,
            final(self).diff.mode == old(self).diff.mode,
            final(self).search.deep_view() == (SearchStateView {
                query: old(self).jump_query(),
                matches: old(self).jump_matches(),
                current_match_idx: final(self).search.current_match_idx,
                ..old(self).search.deep_view()
            }),
            old(self).jump_target(forward) matches Some(target)
                ==> final(self).search.current_match_idx == Some(target as usize),
            old(self).jump_target(forward) is None ==> final(self).diff == old(self).diff && request
                is Nothing,
            *final(self) == (App {
                search: final(self).search,
                status_message: final(self).status_message,
                files: final(self).files,
                diff: final(self).diff,
                git_log: final(self).git_log,
                branch_list: final(self).branch_list,
                reflog: final(self).reflog,
                ..*old(self)
            }),
    {
        reveal(App::jump_post);
        if !self.requery() {
            return Request::Nothing;
        }
        let total = self.search.matches.len();
        if total == 0 {
            self.status_message = Some("Pattern not found".to_owned());
            return Request::Nothing;
        }
        let new_idx = step_match_index(self.search.current_match_idx, total, forward);
        self.search.current_match_idx = Some(new_idx);
        let hit = self.search.matches[new_idx];
        let ghost mid = *self;
        let request = self.place_on_match(hit);
        proof {
            assert(mid.files.lines_on(DiffSide::Left) == old(self).files.lines_on(DiffSide::Left));
            assert(mid.files.lines_on(DiffSide::Right) == old(self).files.lines_on(
                DiffSide::Right,
            ));
            assert(old(self).placed_on(hit, *self, request.deep_view()));
        }
        let mut status = String::new();
        status.push('[');
        push_decimal(&mut status, (new_idx + 1) as u64);
        status.push('/');
        push_decimal(&mut status, total as u64);
        status.push(']');
        assert(status@ =~= match_status(new_idx as int, total as int));
        self.status_message = Some(status);
        request
    }

    /// What is kept of the content does not matter to a jump.
    pub proof fn lemma_jump_post_kept(
        self,
        other: App,
        forward: bool,
        after: App,
        request: RequestView,
    )
        requires
            self.files.same_but_content(other.files),
            other == self.with_files(other.files),
            other.jump_post(forward, after, request),
        ensures
            self.jump_post(forward, after, request),
    {
        reveal(App::jump_post);
        assert(self.files.lines_on(DiffSide::Left) == other.files.lines_on(DiffSide::Left));
        assert(self.files.lines_on(DiffSide::Right) == other.files.lines_on(DiffSide::Right));
        assert(self.jump_query() == other.jump_query());
        assert(self.jump_matches() == other.jump_matches());
        assert(self.jump_start() == other.jump_start());
        assert(self.jump_target(forward) == other.jump_target(forward));
    }

    /// Notes how the clipboard fared with the text that a yank asked to copy.
    pub fn clipboard_done(&mut self, text: &str, outcome: ClipboardOutcome)
        ensures
            final(self).status_message.deep_view() == Some(yank_status(text@, outcome)),
            *final(self) == (App { status_message: final(self).status_message, ..*old(self) }),
    {
        let message = match outcome {
            ClipboardOutcome::Copied => {
                let counted = count_lines(text);
                let n = if counted >= 1 {
                    counted
                } else {
                    1
                };
                let mut m = "Yanked ".to_owned();
                push_decimal(&mut m, n as u64);
                push_text(&mut m, " line");
                if n != 1 {
                    push_text(&mut m, "s");
                }
                proof {
                    reveal_strlit("");
                    assert(m@ =~= yank_status(text@, outcome));
                }
                m
            },
            ClipboardOutcome::Failed => "Clipboard error".to_owned(),
            ClipboardOutcome::Unavailable => "Clipboard unavailable".to_owned(),
        };
        self.status_message = Some(message);
    }
}

} // verus!
