//! The list panes beside the diff view: branches, commits and reflog, the
//! branch action menu, and the search prompt; and the reports of the shell
//! on the outside work they asked for.

use crate::app::{App, BranchAction, BranchActionMenuState, ErrorDialogState, FocusedPane};
use crate::diff::DiffState;
use crate::keys::{KeyCode, KeyEvent};
use crate::modal::DiffViewState;
use crate::repository::{BranchInfo, ReflogEntry};
use crate::request::{Request, RequestView};
use crate::search::SearchOrigin;
use crate::text::{prefixed, without_last};
use vstd::prelude::*;

verus! {

/// The selection one step further down a list of `total` items.
pub open spec fn step_down(selected: usize, total: int) -> usize {
    if selected + 1 < total {
        (selected + 1) as usize
    } else {
        selected
    }
}

/// The selection one step further up a list.
pub open spec fn step_up(selected: usize) -> usize {
    if selected > 0 {
        (selected - 1) as usize
    } else {
        selected
    }
}

/// Half of a view's height, at least one.
pub open spec fn half_page(height: u16) -> u16 {
    if height / 2 >= 1 {
        height / 2
    } else {
        1
    }
}

fn down_in(selected: usize, total: usize) -> (r: usize)
    ensures
        r == step_down(selected, total as int),
{
    if total > 0 && selected < total - 1 {
        selected + 1
    } else {
        selected
    }
}

fn up_in(selected: usize) -> (r: usize)
    ensures
        r == step_up(selected),
{
    if selected > 0 {
        selected - 1
    } else {
        selected
    }
}

fn half_of(height: u16) -> (r: u16)
    ensures
        r == half_page(height),
{
    if height / 2 >= 1 {
        height / 2
    } else {
        1
    }
}

impl App {
    /// Takes in the list of local branches. A selection past its end goes
    /// back to the first branch; the commits of the selected branch are
    /// asked for.
    pub fn load_branches(&mut self, branches: Vec<BranchInfo>) -> (request: Request)
        ensures
            final(self).branch_list.branches == branches,
            final(self).branch_list.selected_idx == if old(self).branch_list.selected_idx
                >= branches.len() {
                0
            } else {
                old(self).branch_list.selected_idx
            },
            final(self).selected_branch() matches Some(name) ==> request.deep_view()
                == RequestView::LoadBranchLog(name),
            final(self).selected_branch() is None ==> request is Nothing,
            *final(self) == (App {
                branch_list: final(self).branch_list,
                git_log: final(self).git_log,
                ..*old(self)
            }),
    {
        self.branch_list.branches = branches;
        if self.branch_list.selected_idx >= self.branch_list.branches.len() {
            self.branch_list.selected_idx = 0;
        }
        self.update_branch_log()
    }

    /// Takes in the entries of the reflog. A selection past its end goes
    /// back to the first entry.
    pub fn load_reflog(&mut self, entries: Vec<ReflogEntry>)
        ensures
            final(self).reflog.entries == entries,
            final(self).reflog.selected_idx == if old(self).reflog.selected_idx >= entries.len() {
                0
            } else {
                old(self).reflog.selected_idx
            },
            final(self).reflog.view_height == old(self).reflog.view_height,
            *final(self) == (App { reflog: final(self).reflog, ..*old(self) }),
    {
        self.reflog.entries = entries;
        if self.reflog.selected_idx >= self.reflog.entries.len() {
            self.reflog.selected_idx = 0;
        }
    }

    /// Takes in the outcome of reading the diff. A diff that was read
    /// replaces the old one: the selected file stays selected by its path,
    /// the view goes back to its top left, the cursor is brought inside the
    /// new content, matches and colours kept per file are dropped, and the
    /// status is cleared but for the note of a fallback. A failure with a
    /// base ref chosen drops the ref, notes the
    /// fallback and asks for the diff against the default base; a failure
    /// without one is reported in the status.
    pub fn refresh_diff(&mut self, outcome: Result<DiffState, String>) -> (request: Request)
        requires
            old(self).wf(),
        ensures
            final(self).wf(),
            match outcome {
                Ok(state) => {
                    &&& request is Nothing
                    &&& final(self).files.diff_state == state
                    &&& final(self).files.collapsed_dirs == old(self).files.collapsed_dirs
                    &&& final(self).files.selected_tree_idx == old(self).files.reselected(
                        final(self).files.tree(),
                        crate::tree::paths_of(state.files.deep_view()),
                    )
                    &&& final(self).files.highlight_cache is None
                    &&& final(self).files.bg_highlights@.len() == 0
                    &&& final(self).diff == (DiffViewState {
                        scroll_y: 0,
                        scroll_x: 0,
                        ..old(self).diff
                    }).with_cursor_clamped(final(self).lines())
                    &&& final(self).lines().len() > 0 ==> final(self).diff.cursor_pos.in_bounds(
                        final(self).lines(),
                    )
                    &&& final(self).status_message == old(self).fallback_note
                    &&& final(self).fallback_note is None
                    &&& final(self).search.deep_view()
                        == old(self).search.deep_view().without_matches()
                    &&& final(self).diff_base_ref == old(self).diff_base_ref
                },
                Err(error) => {
                    &&& final(self).files == old(self).files
                    &&& final(self).diff == old(self).diff
                    &&& final(self).search == old(self).search
                    &&& final(self).diff_base_ref is None
                    &&& old(self).diff_base_ref is Some ==> {
                        &&& request is RefreshDiff
                        &&& final(self).fallback_note.deep_view() == Some(
                            "Invalid ref, fell back to HEAD: "@ + error@,
                        )
                        &&& final(self).status_message == old(self).status_message
                    }
                    &&& old(self).diff_base_ref is None ==> {
                        &&& request is Nothing
                        &&& final(self).status_message.deep_view() == Some(
                            "Diff error: "@ + error@,
                        )
                        &&& final(self).fallback_note == old(self).fallback_note
                    }
                },
            },
    {
        match outcome {
            Ok(state) => {
                self.files.replace_diff(state);
                self.diff.scroll_y = 0;
                self.diff.scroll_x = 0;
                let lines = self.content_lines();
                if lines.len() > 0 {
                    self.diff.cursor_pos = crate::cursor::clamp(self.diff.cursor_pos, &lines);
                }
                self.status_message = self.fallback_note.take();
                self.search.reset_matches();
                Request::Nothing
            },
            Err(error) => {
                if self.diff_base_ref.is_some() {
                    self.diff_base_ref = None;
                    self.fallback_note = Some(
                        prefixed("Invalid ref, fell back to HEAD: ", error.as_str()),
                    );
                    Request::RefreshDiff
                } else {
                    self.status_message = Some(prefixed("Diff error: ", error.as_str()));
                    Request::Nothing
                }
            },
        }
    }

    /// Makes the selected branch the base of the diff: the current branch
    /// stands for the default base. The diff is asked for again.
    fn select_branch(&mut self) -> (request: Request)
        ensures
            match old(self).selected_branch() {
                Some(name) => request is RefreshDiff && final(self).diff_base_ref.deep_view() == (
                if old(self).head_selected() {
                    None
                } else {
                    Some(name)
                }),
                None => request is Nothing && final(self).diff_base_ref == old(self).diff_base_ref,
            },
            *final(self) == (App { diff_base_ref: final(self).diff_base_ref, ..*old(self) }),
    {
        if self.branch_list.selected_idx < self.branch_list.branches.len() {
            let branch = &self.branch_list.branches[self.branch_list.selected_idx];
            if branch.is_head {
                self.diff_base_ref = None;
            } else {
                self.diff_base_ref = Some(branch.name.clone());
            }
            Request::RefreshDiff
        } else {
            Request::Nothing
        }
    }

    /// Opens the action menu for the selected branch.
    fn open_branch_action_menu(&mut self)
        ensures
            old(self).menu_opened(*final(self)),
    {
        if self.branch_list.selected_idx < self.branch_list.branches.len() {
            let branch = &self.branch_list.branches[self.branch_list.selected_idx];
            self.branch_action_menu = Some(
                BranchActionMenuState {
                    branch_name: branch.name.clone(),
                    is_head: branch.is_head,
                    selected_idx: 0,
                },
            );
        }
    }

    /// Carries out an action of the branch menu and closes the menu. The
    /// current branch is neither switched to nor deleted.
    pub fn execute_branch_action(&mut self, action: BranchAction) -> (request: Request)
        ensures
            old(self).action_post(action, *final(self), request.deep_view()),
            final(self).files == old(self).files,
    {
        reveal(App::action_post);
        let menu = match self.branch_action_menu.take() {
            Some(m) => m,
            None => {
                return Request::Nothing;
            },
        };
        match action {
            BranchAction::Switch => {
                if menu.is_head {
                    self.status_message = Some("Already on this branch".to_owned());
                    Request::Nothing
                } else {
                    Request::SwitchBranch(menu.branch_name)
                }
            },
            BranchAction::Delete => {
                if menu.is_head {
                    self.status_message = Some("Cannot delete the current branch".to_owned());
                    Request::Nothing
                } else {
                    Request::DeleteBranch(menu.branch_name)
                }
            },
            BranchAction::DiffBase => self.select_branch(),
        }
    }

    /// Takes in how switching to `name` went: success is noted in the
    /// status, and the branches and the diff are asked for again; a failure
    /// opens the error dialog.
    pub fn branch_switched(&mut self, name: &str, outcome: Result<(), String>) -> (request: Request)
        ensures
            match outcome {
                Ok(_) => {
                    &&& request is ReloadBranchesAndDiff
                    &&& final(self).status_message.deep_view() == Some("Switched to "@ + name@)
                    &&& final(self).error_dialog == old(self).error_dialog
                },
                Err(error) => {
                    &&& request is Nothing
                    &&& final(self).status_message == old(self).status_message
                    &&& final(self).error_dialog is Some
                    &&& final(self).error_dialog->0.title@ == "Switch failed"@
                    &&& final(self).error_dialog->0.message == error
                },
            },
            *final(self) == (App {
                status_message: final(self).status_message,
                error_dialog: final(self).error_dialog,
                ..*old(self)
            }),
    {
        match outcome {
            Ok(_) => {
                self.status_message = Some(prefixed("Switched to ", name));
                Request::ReloadBranchesAndDiff
            },
            Err(error) => {
                self.error_dialog = Some(
                    ErrorDialogState { title: "Switch failed".to_owned(), message: error },
                );
                Request::Nothing
            },
        }
    }

    /// Takes in how deleting `name` went: success is noted in the status,
    /// and the branches are asked for again; a failure opens the error dialog.
    pub fn branch_deleted(&mut self, name: &str, outcome: Result<(), String>) -> (request: Request)
        ensures
            match outcome {
                Ok(_) => {
                    &&& request is ReloadBranches
                    &&& final(self).status_message.deep_view() == Some("Deleted "@ + name@)
                    &&& final(self).error_dialog == old(self).error_dialog
                },
                Err(error) => {
                    &&& request is Nothing
                    &&& final(self).status_message == old(self).status_message
                    &&& final(self).error_dialog is Some
                    &&& final(self).error_dialog->0.title@ == "Delete failed"@
                    &&& final(self).error_dialog->0.message == error
                },
            },
            *final(self) == (App {
                status_message: final(self).status_message,
                error_dialog: final(self).error_dialog,
                ..*old(self)
            }),
    {
        match outcome {
            Ok(_) => {
                self.status_message = Some(prefixed("Deleted ", name));
                Request::ReloadBranches
            },
            Err(error) => {
                self.error_dialog = Some(
                    ErrorDialogState { title: "Delete failed".to_owned(), message: error },
                );
                Request::Nothing
            },
        }
    }

    /// Handles a key while the branch action menu is open: Escape and `q`
    /// close it, `j` and `k` move in it, Enter carries out the selected
    /// action, `s`, `d` and `b` carry out theirs.
    pub fn handle_branch_action_menu_key(&mut self, key: KeyEvent) -> (request: Request)
        ensures
            old(self).menu_key_post(key, *final(self), request.deep_view()),
            final(self).files == old(self).files,
    {
        reveal(App::menu_key_post);
        let selected = match &self.branch_action_menu {
            Some(menu) => menu.selected_idx,
            None => {
                return Request::Nothing;
            },
        };
        match key.code {
            KeyCode::Esc => {
                self.branch_action_menu = None;
                Request::Nothing
            },
            KeyCode::Down => {
                self.move_in_menu(down_in(selected, 3));
                Request::Nothing
            },
            KeyCode::Up => {
                self.move_in_menu(up_in(selected));
                Request::Nothing
            },
            KeyCode::Enter => match BranchAction::at(selected) {
                Some(action) => self.execute_branch_action(action),
                None => Request::Nothing,
            },
            KeyCode::Char(c) => {
                if c == 'q' {
                    self.branch_action_menu = None;
                    Request::Nothing
                } else if c == 'j' {
                    self.move_in_menu(down_in(selected, 3));
                    Request::Nothing
                } else if c == 'k' {
                    self.move_in_menu(up_in(selected));
                    Request::Nothing
                } else if c == 's' {
                    self.execute_branch_action(BranchAction::Switch)
                } else if c == 'd' {
                    self.execute_branch_action(BranchAction::Delete)
                } else if c == 'b' {
                    self.execute_branch_action(BranchAction::DiffBase)
                } else {
                    Request::Nothing
                }
            },
            _ => Request::Nothing,
        }
    }

    fn move_in_menu(&mut self, idx: usize)
        requires
            old(self).branch_action_menu is Some,
        ensures
            old(self).menu_moved(idx, *final(self)),
    {
        match self.branch_action_menu.take() {
            Some(menu) => {
                self.branch_action_menu = Some(
                    BranchActionMenuState { selected_idx: idx, ..menu },
                );
            },
            None => {},
        }
    }

    /// Handles a key in the branch list: `h`, `l` and `i` move the focus;
    /// Escape clears the search or else drops the diff base; `j` and `k`
    /// move the selection and ask for the commits of the branch; Enter opens
    /// the action menu.
    pub fn handle_branch_list_key(&mut self, key: KeyEvent) -> (request: Request)
        requires
            old(self).wf(),
        ensures
            final(self).wf(),
            old(self).branch_key_post(key, *final(self), request.deep_view()),
    {
        reveal(App::branch_key_post);
        match key.code {
            KeyCode::Esc => {
                if self.search.query.is_some() {
                    self.search.clear();
                    Request::Nothing
                } else if self.diff_base_ref.is_some() {
                    self.diff_base_ref = None;
                    Request::RefreshDiff
                } else {
                    Request::Nothing
                }
            },
            KeyCode::Down => self.move_branch_selection(true),
            KeyCode::Up => self.move_branch_selection(false),
            KeyCode::Enter => {
                self.open_branch_action_menu();
                Request::Nothing
            },
            KeyCode::Char(c) => {
                if c == 'h' {
                    self.set_focus(FocusedPane::FileTree);
                    Request::Nothing
                } else if c == 'l' {
                    self.set_focus(FocusedPane::Reflog);
                    Request::Nothing
                } else if c == 'i' {
                    self.set_focus(FocusedPane::GitLog);
                    Request::Nothing
                } else if c == 'j' {
                    self.move_branch_selection(true)
                } else if c == 'k' {
                    self.move_branch_selection(false)
                } else if c == '/' {
                    self.search.start(SearchOrigin::BranchList);
                    Request::Nothing
                } else if c == 'n' {
                    self.jump_to_match(true)
                } else if c == 'N' {
                    self.jump_to_match(false)
                } else {
                    Request::Nothing
                }
            },
            _ => Request::Nothing,
        }
    }

    fn move_branch_selection(&mut self, down: bool) -> (request: Request)
        ensures
            old(self).branch_moved(
                if down {
                    step_down(
                        old(self).branch_list.selected_idx,
                        old(self).branch_list.branches.len() as int,
                    )
                } else {
                    step_up(old(self).branch_list.selected_idx)
                },
                *final(self),
                request.deep_view(),
            ),
    {
        let before = self.branch_list.selected_idx;
        let next = if down {
            down_in(before, self.branch_list.branches.len())
        } else {
            up_in(before)
        };
        if next != before {
            self.branch_list.selected_idx = next;
            self.update_branch_log()
        } else {
            Request::Nothing
        }
    }

    /// The scroll position of the commit log after a key.
    pub open spec fn log_scroll_after(self, key: KeyEvent) -> u16 {
        let scroll = self.git_log.scroll;
        let plus = |by: int|
            if scroll + by <= u16::MAX {
                (scroll + by) as u16
            } else {
                u16::MAX
            };
        let minus = |by: int|
            if scroll >= by {
                (scroll - by) as u16
            } else {
                0u16
            };
        match key.code {
            KeyCode::Down => plus(1),
            KeyCode::Up => minus(1),
            KeyCode::Char(c) => if c == 'j' {
                plus(1)
            } else if c == 'k' {
                minus(1)
            } else if c == 'd' && key.ctrl {
                plus(10)
            } else if c == 'u' && key.ctrl {
                minus(10)
            } else if c == 'g' {
                0
            } else if c == 'G' {
                let total = self.git_log.commits.len() as u16;
                if total >= 10 {
                    (total - 10) as u16
                } else {
                    0
                }
            } else {
                scroll
            },
            _ => scroll,
        }
    }

    /// Handles a key in the commit log: `h` and Escape move the focus
    /// (Escape first clears a search); the scroll keys scroll.
    pub fn handle_git_log_key(&mut self, key: KeyEvent) -> (request: Request)
        requires
            old(self).wf(),
        ensures
            final(self).wf(),
            old(self).log_key_post(key, *final(self), request.deep_view()),
    {
        reveal(App::log_key_post);
        match key.code {
            KeyCode::Esc => {
                if self.search.query.is_some() {
                    self.search.clear();
                } else {
                    let back = self.previous_pane;
                    self.set_focus(back);
                }
                Request::Nothing
            },
            KeyCode::Down => {
                self.git_log.scroll = self.git_log.scroll.saturating_add(1);
                Request::Nothing
            },
            KeyCode::Up => {
                self.git_log.scroll = self.git_log.scroll.saturating_sub(1);
                Request::Nothing
            },
            KeyCode::Char(c) => {
                if c == 'h' {
                    self.set_focus(FocusedPane::Reflog);
                } else if c == 'j' {
                    self.git_log.scroll = self.git_log.scroll.saturating_add(1);
                } else if c == 'k' {
                    self.git_log.scroll = self.git_log.scroll.saturating_sub(1);
                } else if c == 'd' && key.ctrl {
                    self.git_log.scroll = self.git_log.scroll.saturating_add(10);
                } else if c == 'u' && key.ctrl {
                    self.git_log.scroll = self.git_log.scroll.saturating_sub(10);
                } else if c == 'g' {
                    self.git_log.scroll = 0;
                } else if c == 'G' {
                    let total = #[verifier::truncate] (self.git_log.commits.len() as u16);
                    self.git_log.scroll = total.saturating_sub(10);
                } else if c == '/' {
                    self.search.start(SearchOrigin::CommitLog);
                } else if c == 'n' {
                    return self.jump_to_match(true);
                } else if c == 'N' {
                    return self.jump_to_match(false);
                }
                Request::Nothing
            },
            _ => Request::Nothing,
        }
    }

    /// The selected reflog entry after a key.
    pub open spec fn reflog_selection_after(self, key: KeyEvent) -> usize {
        let selected = self.reflog.selected_idx;
        let total = self.reflog.entries.len();
        let half = half_page(self.reflog.view_height);
        let last = if total > 0 {
            (total - 1) as usize
        } else {
            0usize
        };
        match key.code {
            KeyCode::Down => step_down(selected, total as int),
            KeyCode::Up => step_up(selected),
            KeyCode::Char(c) => if c == 'j' {
                step_down(selected, total as int)
            } else if c == 'k' {
                step_up(selected)
            } else if c == 'd' && key.ctrl {
                if selected + half <= last {
                    (selected + half) as usize
                } else {
                    last
                }
            } else if c == 'u' && key.ctrl {
                if selected >= half {
                    (selected - half) as usize
                } else {
                    0
                }
            } else if c == 'g' {
                0
            } else if c == 'G' {
                if total > 0 {
                    last
                } else {
                    selected
                }
            } else {
                selected
            },
            _ => selected,
        }
    }

    /// Handles a key in the reflog: `h`, `i` and Escape move the focus
    /// (Escape first clears a search); the movement keys move the selection;
    /// Enter makes the selected entry the base of the diff.
    pub fn handle_reflog_key(&mut self, key: KeyEvent) -> (request: Request)
        requires
            old(self).wf(),
        ensures
            final(self).wf(),
            old(self).reflog_key_post(key, *final(self), request.deep_view()),
    {
        reveal(App::reflog_key_post);
        let selected = self.reflog.selected_idx;
        let total = self.reflog.entries.len();
        match key.code {
            KeyCode::Esc => {
                if self.search.query.is_some() {
                    self.search.clear();
                } else {
                    self.set_focus(FocusedPane::BranchList);
                }
                Request::Nothing
            },
            KeyCode::Down => {
                self.reflog.selected_idx = down_in(selected, total);
                Request::Nothing
            },
            KeyCode::Up => {
                self.reflog.selected_idx = up_in(selected);
                Request::Nothing
            },
            KeyCode::Enter => {
                if selected < total {
                    self.diff_base_ref = Some(self.reflog.entries[selected].full_hash.clone());
                    Request::RefreshDiff
                } else {
                    Request::Nothing
                }
            },
            KeyCode::Char(c) => {
                if c == 'h' {
                    self.set_focus(FocusedPane::BranchList);
                } else if c == 'i' {
                    self.set_focus(FocusedPane::GitLog);
                } else if c == 'j' {
                    self.reflog.selected_idx = down_in(selected, total);
                } else if c == 'k' {
                    self.reflog.selected_idx = up_in(selected);
                } else if c == 'd' && key.ctrl {
                    let half: usize = half_of(self.reflog.view_height).into();
                    let last = if total > 0 {
                        total - 1
                    } else {
                        0
                    };
                    let want = selected.saturating_add(half);
                    self.reflog.selected_idx = if want <= last {
                        want
                    } else {
                        last
                    };
                } else if c == 'u' && key.ctrl {
                    let half: usize = half_of(self.reflog.view_height).into();
                    self.reflog.selected_idx = selected.saturating_sub(half);
                } else if c == 'g' {
                    self.reflog.selected_idx = 0;
                } else if c == 'G' {
                    if total > 0 {
                        self.reflog.selected_idx = total - 1;
                    }
                } else if c == '/' {
                    self.search.start(SearchOrigin::Reflog);
                } else if c == 'n' {
                    return self.jump_to_match(true);
                } else if c == 'N' {
                    return self.jump_to_match(false);
                }
                Request::Nothing
            },
            _ => Request::Nothing,
        }
    }

    /// Handles a key in the search prompt: Enter confirms the input as the
    /// query, records it in the history, runs it and goes to its first
    /// match; Escape closes the prompt; Backspace deletes; Up and Down (or
    /// Control-p and Control-n) browse the history; any other character is
    /// typed.
    pub fn handle_search_input_key(&mut self, key: KeyEvent) -> (request: Request)
        requires
            old(self).wf(),
        ensures
            final(self).wf(),
            old(self).prompt_key_post(key, *final(self), request.deep_view()),
    {
        reveal(App::prompt_key_post);
        match key.code {
            KeyCode::Enter => {
                let query = self.search.input.clone();
                if query.as_str().is_empty() {
                    self.search.active = false;
                    return Request::Nothing;
                }
                self.search.push_history(query.as_str());
                self.search.active = false;
                self.search.query = Some(query);
                self.execute_search();
                let ghost asked = *self;
                let request = self.jump_to_match(true);
                proof {
                    assert(old(self).confirmed(asked));
                    assert(asked.jump_post(true, *self, request.deep_view()));
                }
                request
            },
            KeyCode::Esc => {
                self.search.active = false;
                self.search.input = String::new();
                Request::Nothing
            },
            KeyCode::Backspace => {
                self.search.input = without_last(self.search.input.as_str());
                self.search.history_idx = None;
                Request::Nothing
            },
            KeyCode::Up => {
                self.search.history_prev();
                Request::Nothing
            },
            KeyCode::Down => {
                self.search.history_next();
                Request::Nothing
            },
            KeyCode::Char(c) => {
                if c == 'p' && key.ctrl {
                    self.search.history_prev();
                } else if c == 'n' && key.ctrl {
                    self.search.history_next();
                } else {
                    self.search.input.push(c);
                    self.search.history_idx = None;
                }
                Request::Nothing
            },
            _ => Request::Nothing,
        }
    }
}

} // verus!
