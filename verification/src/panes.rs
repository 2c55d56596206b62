//! The key handlers of the panes. Each applies one key to the application
//! state and says what the shell has to do.

use crate::app::{App, FocusedPane};
use crate::keys::KeyCode;
use crate::tree::TreeEntry;
use crate::cursor::{clamp, DiffSide, DiffViewMode};
use crate::keys::KeyEvent;
use crate::modal::{DiffViewState, Outcome, OutcomeView};
use crate::request::{Request, RequestView};
use crate::search::SearchOrigin;
use vstd::prelude::*;

verus! {

impl App {
    /// How the state after a jump from the diff view follows from the
    /// state `jumped` that the jump itself leaves: in Scroll mode it is that
    /// state; in the other modes the cursor is brought inside the content
    /// and the view follows it.
    pub open spec fn followed(jumped: App, after: App, follow: bool) -> bool {
        &&& jumped.files.same_but_content(after.files)
        &&& after == (App {
            diff: if follow {
                jumped.diff.with_cursor_clamped(after.lines()).scrolled_to_cursor()
            } else {
                jumped.diff
            },
            files: after.files,
            ..jumped
        })
    }

    /// A jump from the diff view: the jump itself leaves a state as
    /// `jump_post` says, and `after` follows from that state.
    pub open spec fn jump_followed(
        self,
        forward: bool,
        after: App,
        request: RequestView,
        follow: bool,
    ) -> bool {
        exists|jumped: App|
            {
                &&& #[trigger] self.jump_post(forward, jumped, request)
                &&& Self::followed(jumped, after, follow)
            }
    }

    /// What a key in the diff view leaves behind, given the step of the
    /// modal engine: the engine's next state, and what its outcome asks
    /// for. After a change of side the cursor is brought inside the other
    /// side's content. A jump runs as `jump_post` says, from the engine's
    /// next state, and is followed by the cursor where `follow` says so.
    pub open spec fn diff_key_post(
        self,
        step: (DiffViewState, OutcomeView),
        after: App,
        request: RequestView,
        follow: bool,
    ) -> bool {
        let next = step.0;
        let mid = App { diff: next, ..self };
        &&& after.files.diff_state == self.files.diff_state
        &&& after.files.collapsed_dirs == self.files.collapsed_dirs
        &&& match step.1 {
            OutcomeView::Handled => {
                &&& request is Nothing
                &&& self.files.same_but_content(after.files)
                &&& after == mid.with_files(after.files)
            },
            OutcomeView::StartSearch => {
                &&& request is Nothing
                &&& self.files.same_but_content(after.files)
                &&& after.search.deep_view() == self.search.deep_view().started(
                    SearchOrigin::DiffView,
                )
                &&& after == (App { search: after.search, files: after.files, ..mid })
            },
            OutcomeView::ClearSearch => {
                &&& request is Nothing
                &&& self.files.same_but_content(after.files)
                &&& after.search.deep_view() == self.search.deep_view().cleared()
                &&& after == (App { search: after.search, files: after.files, ..mid })
            },
            OutcomeView::Yank(text) => {
                &&& self.files.same_but_content(after.files)
                &&& after == mid.with_files(after.files)
                &&& request == if text.len() > 0 {
                    RequestView::Copy(text)
                } else {
                    RequestView::Nothing
                }
            },
            OutcomeView::SideChanged => {
                &&& request is Nothing
                &&& self.files.same_but_content(after.files)
                &&& after == (App {
                    diff: next.with_cursor_clamped(self.files.lines_on(next.cursor_pos.side)),
                    ..self
                }).with_files(after.files)
            },
            OutcomeView::LeaveFocus => {
                &&& request is Nothing
                &&& self.files.same_but_content(after.files)
                &&& after == (App {
                    previous_pane: self.focused_pane,
                    focused_pane: self.previous_pane,
                    ..mid
                }).with_files(after.files)
            },
            OutcomeView::Jump(forward) => mid.jump_followed(forward, after, request, follow),
        }
    }

    /// What is kept of the content does not matter to what a key leaves
    /// behind.
    proof fn lemma_diff_key_post_kept(
        before: App,
        stepped: App,
        step: (DiffViewState, OutcomeView),
        after: App,
        request: RequestView,
        follow: bool,
    )
        requires
            before.files.same_but_content(stepped.files),
            stepped == (App { files: stepped.files, diff: step.0, ..before }),
            stepped.diff_key_post(step, after, request, follow),
        ensures
            before.diff_key_post(step, after, request, follow),
    {
        let mid = App { diff: step.0, ..before };
        assert(mid.files.lines_on(DiffSide::Left) == stepped.files.lines_on(DiffSide::Left));
        assert(mid.files.lines_on(DiffSide::Right) == stepped.files.lines_on(DiffSide::Right));
        match step.1 {
            OutcomeView::Jump(forward) => {
                let jumped = choose|jumped: App|
                    {
                        &&& #[trigger] stepped.jump_post(forward, jumped, request)
                        &&& Self::followed(jumped, after, follow)
                    };
                mid.lemma_jump_post_kept(stepped, forward, jumped, request);
                assert(mid.jump_followed(forward, after, request, follow));
            },
            _ => {},
        }
    }

    /// Jumps to a match and, where `follow` says so, brings the cursor
    /// inside the content and lets the view follow it.
    fn jump_and_follow(&mut self, forward: bool, follow: bool) -> (request: Request)
        requires
            old(self).wf(),
        ensures
            final(self).wf(),
            final(self).files.diff_state == old(self).files.diff_state,
            final(self).files.collapsed_dirs == old(self).files.collapsed_dirs,
            old(self).jump_followed(forward, *final(self), request.deep_view(), follow),
            follow && final(self).lines().len() > 0 ==> final(self).diff.cursor_pos.in_bounds(
                final(self).lines(),
            ),
    {
        let request = self.jump_to_match(forward);
        let ghost jumped = *self;
        if follow {
            let lines = self.content_lines();
            if lines.len() > 0 {
                self.diff.cursor_pos = clamp(self.diff.cursor_pos, &lines);
            }
            self.diff.scroll_to_cursor();
        }
        proof {
            assert(old(self).jump_post(forward, jumped, request.deep_view()));
            assert(Self::followed(jumped, *self, follow));
        }
        request
    }

    /// Does what the outcome of a key in the diff view asks for.
    fn finish_diff_key(&mut self, out: Outcome, keep_in_bounds: bool) -> (request: Request)
        requires
            old(self).wf(),
            keep_in_bounds && !(out is SideChanged) && old(self).lines().len() > 0
                ==> old(self).diff.cursor_pos.in_bounds(old(self).lines()),
        ensures
            final(self).wf(),
            old(self).diff_key_post(
                (old(self).diff, out.deep_view()),
                *final(self),
                request.deep_view(),
                keep_in_bounds,
            ),
            keep_in_bounds && final(self).lines().len() > 0 ==> final(self).diff.cursor_pos.in_bounds(
                final(self).lines(),
            ),
    {
        match out {
            Outcome::Handled => Request::Nothing,
            Outcome::StartSearch => {
                self.search.start(SearchOrigin::DiffView);
                Request::Nothing
            },
            Outcome::ClearSearch => {
                self.search.clear();
                Request::Nothing
            },
            Outcome::Yank(text) => {
                if text.as_str().is_empty() {
                    Request::Nothing
                } else {
                    Request::Copy(text)
                }
            },
            Outcome::SideChanged => {
                let lines = self.content_lines();
                if lines.len() > 0 {
                    self.diff.cursor_pos = clamp(self.diff.cursor_pos, &lines);
                }
                Request::Nothing
            },
            Outcome::LeaveFocus => {
                let back = self.previous_pane;
                self.set_focus(back);
                Request::Nothing
            },
            Outcome::Jump(forward) => {
                let request = self.jump_and_follow(forward, keep_in_bounds);
                proof {
                    let mid = App { diff: old(self).diff, ..*old(self) };
                    assert(mid == *old(self));
                }
                request
            },
        }
    }

    /// Handles a key in the diff view in Scroll mode.
    pub fn handle_diff_scroll_key(&mut self, key: KeyEvent) -> (request: Request)
        requires
            old(self).wf(),
        ensures
            final(self).wf(),
            old(self).diff_key_post(
                old(self).diff.scroll_step(key, old(self).lines(), old(self).search.query is Some),
                *final(self),
                request.deep_view(),
                false,
            ),
    {
        let lines = self.content_lines();
        let searching = self.search.query.is_some();
        let out = self.diff.scroll_key(key, &lines, searching);
        let ghost stepped = *self;
        let ghost outcome = out.deep_view();
        let request = self.finish_diff_key(out, false);
        proof {
            Self::lemma_diff_key_post_kept(
                *old(self),
                stepped,
                (stepped.diff, outcome),
                *self,
                request.deep_view(),
                false,
            );
        }
        request
    }

    /// Handles a key in the diff view in Normal mode. Afterwards the
    /// cursor lies inside the content, if there is any.
    pub fn handle_diff_normal_key(&mut self, key: KeyEvent) -> (request: Request)
        requires
            old(self).wf(),
        ensures
            final(self).wf(),
            old(self).diff_key_post(
                old(self).diff.normal_step(key, old(self).lines(), old(self).search.query is Some),
                *final(self),
                request.deep_view(),
                true,
            ),
            final(self).lines().len() > 0 ==> final(self).diff.cursor_pos.in_bounds(
                final(self).lines(),
            ),
    {
        let lines = self.content_lines();
        let searching = self.search.query.is_some();
        let out = self.diff.normal_key(key, &lines, searching);
        let ghost stepped = *self;
        let ghost outcome = out.deep_view();
        let request = self.finish_diff_key(out, true);
        proof {
            Self::lemma_diff_key_post_kept(
                *old(self),
                stepped,
                (stepped.diff, outcome),
                *self,
                request.deep_view(),
                true,
            );
        }
        request
    }

    /// Handles a key in the diff view in Visual or Visual-Line mode.
    /// Afterwards the cursor lies inside the content, if there is any.
    pub fn handle_diff_visual_key(&mut self, key: KeyEvent) -> (request: Request)
        requires
            old(self).wf(),
        ensures
            final(self).wf(),
            old(self).diff_key_post(
                old(self).diff.visual_step(key, old(self).lines()),
                *final(self),
                request.deep_view(),
                true,
            ),
            final(self).lines().len() > 0 ==> final(self).diff.cursor_pos.in_bounds(
                final(self).lines(),
            ),
    {
        let lines = self.content_lines();
        let out = self.diff.visual_key(key, &lines);
        let ghost stepped = *self;
        let ghost outcome = out.deep_view();
        let request = self.finish_diff_key(out, true);
        proof {
            Self::lemma_diff_key_post_kept(
                *old(self),
                stepped,
                (stepped.diff, outcome),
                *self,
                request.deep_view(),
                true,
            );
        }
        request
    }

    /// The step of the modal engine for the mode the diff view is in.
    pub open spec fn diff_step(self, key: KeyEvent) -> (DiffViewState, OutcomeView) {
        match self.diff.mode {
            DiffViewMode::Scroll => self.diff.scroll_step(
                key,
                self.lines(),
                self.search.query is Some,
            ),
            DiffViewMode::Normal => self.diff.normal_step(
                key,
                self.lines(),
                self.search.query is Some,
            ),
            _ => self.diff.visual_step(key, self.lines()),
        }
    }

    /// Handles a key in the diff view, by its mode.
    pub fn handle_diff_view_key(&mut self, key: KeyEvent) -> (request: Request)
        requires
            old(self).wf(),
        ensures
            final(self).wf(),
            old(self).diff_key_post(
                old(self).diff_step(key),
                *final(self),
                request.deep_view(),
                old(self).diff.mode != DiffViewMode::Scroll,
            ),
            old(self).diff.mode != DiffViewMode::Scroll && final(self).lines().len() > 0
                ==> final(self).diff.cursor_pos.in_bounds(final(self).lines()),
    {
        match self.diff.mode {
            DiffViewMode::Scroll => self.handle_diff_scroll_key(key),
            DiffViewMode::Normal => self.handle_diff_normal_key(key),
            DiffViewMode::Visual | DiffViewMode::VisualLine => self.handle_diff_visual_key(key),
        }
    }
}

impl App {
    /// Runs the diff search again for a newly selected file, where a
    /// search in the diff view is active.
    fn re_search_on_file_change(&mut self)
        requires
            old(self).wf(),
        ensures
            final(self).wf(),
            old(self).files.same_but_content(final(self).files),
            old(self).search.origin == SearchOrigin::DiffView && old(self).search.query is Some
                ==> final(self).search.deep_view() == (crate::search::SearchStateView {
                matches: crate::search::diff_matches(
                    old(self).files.selected_hunks(),
                    old(self).search.query->0@,
                ),
                current_match_idx: None,
                ..old(self).search.deep_view()
            }),
            !(old(self).search.origin == SearchOrigin::DiffView && old(self).search.query is Some)
                ==> *final(self) == *old(self),
            *final(self) == (App { search: final(self).search, files: final(self).files, ..*old(self) }),
            final(self).search.origin == old(self).search.origin,
            final(self).search.query == old(self).search.query,
    {
        if self.search.origin == SearchOrigin::DiffView && self.search.query.is_some() {
            self.execute_search();
        }
    }

    /// Moves the selection in the file tree to `idx`, with the diff view
    /// back at its top left, and searches the newly selected file.
    fn select_tree_entry(&mut self, idx: usize)
        requires
            old(self).wf(),
        ensures
            final(self).wf(),
            old(self).tree_selected(idx, *final(self)),
    {
        self.files.select(idx);
        self.diff.scroll_y = 0;
        self.diff.scroll_x = 0;
        self.re_search_on_file_change();
    }

    /// Handles a key in the file tree: `l` and `i` move the focus, Escape
    /// clears the search, `j` and `k` move the selection, Space collapses
    /// or expands a directory, Enter does so too, or opens the diff view on
    /// a file.
    pub fn handle_file_tree_key(&mut self, key: KeyEvent) -> (request: Request)
        requires
            old(self).wf(),
        ensures
            final(self).wf(),
            old(self).tree_key_post(key, *final(self), request.deep_view()),
    {
        reveal(App::tree_key_post);
        match key.code {
            KeyCode::Char(c) => {
                if c == 'l' {
                    self.set_focus(FocusedPane::BranchList);
                    return Request::Nothing;
                } else if c == 'i' {
                    self.set_focus(FocusedPane::DiffView);
                    return Request::Nothing;
                }
            },
            KeyCode::Esc => {
                if self.search.query.is_some() {
                    self.search.clear();
                }
                return Request::Nothing;
            },
            _ => {},
        }
        let entries = self.build_tree_entries();
        let total = entries.len();
        if total == 0 {
            return Request::Nothing;
        }
        let selected = self.files.selected_tree_idx;
        let down = match key.code {
            KeyCode::Down => true,
            KeyCode::Char(c) => c == 'j',
            _ => false,
        };
        let up = match key.code {
            KeyCode::Up => true,
            KeyCode::Char(c) => c == 'k',
            _ => false,
        };
        let toggle = match key.code {
            KeyCode::Right | KeyCode::Enter => true,
            KeyCode::Char(c) => c == ' ',
            _ => false,
        };
        let open = match key.code {
            KeyCode::Right | KeyCode::Enter => true,
            _ => false,
        };
        if down {
            if selected < total - 1 {
                self.select_tree_entry(selected + 1);
            }
            Request::Nothing
        } else if up {
            if selected > 0 {
                self.select_tree_entry(selected - 1);
            }
            Request::Nothing
        } else if toggle {
            if selected < total {
                assert(self.files.tree()[selected as int] == entries[selected as int].deep_view());
                match &entries[selected] {
                    TreeEntry::Dir { path, .. } => {
                        self.files.toggle_dir(path.as_str());
                    },
                    TreeEntry::File { .. } => {
                        if open {
                            self.set_focus(FocusedPane::DiffView);
                            self.diff.scroll_y = 0;
                            self.diff.scroll_x = 0;
                        }
                    },
                }
            }
            Request::Nothing
        } else {
            match key.code {
                KeyCode::Char(c) => {
                    if c == '/' {
                        self.search.start(SearchOrigin::FileTree);
                        Request::Nothing
                    } else if c == 'n' {
                        self.jump_to_match(true)
                    } else if c == 'N' {
                        self.jump_to_match(false)
                    } else {
                        Request::Nothing
                    }
                },
                _ => Request::Nothing,
            }
        }
    }
}

} // verus!
