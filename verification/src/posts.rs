//! What each key does in each pane, stated as relations between the state
//! before a key and the state after it. The key handlers establish these
//! relations; the entry point for keys is described through them.

use crate::app::{App, BranchAction, BranchListState, FocusedPane, GitLogState, ReflogState};
use crate::dispatch::{next_pane, origin_of, prev_pane};
use crate::files::DiffFiles;
use crate::keys::{KeyCode, KeyEvent};
use crate::lists::{step_down, step_up};
use crate::modal::DiffViewState;
use crate::request::RequestView;
use crate::search::{diff_matches, SearchOrigin, SearchStateView};
use crate::tree::TreeEntryView;
use vstd::prelude::*;

verus! {

/// Whether a key moves down in a list.
pub open spec fn is_down(code: KeyCode) -> bool {
    code == KeyCode::Down || code == KeyCode::Char('j')
}

/// Whether a key moves up in a list.
pub open spec fn is_up(code: KeyCode) -> bool {
    code == KeyCode::Up || code == KeyCode::Char('k')
}

impl App {
    /// The state with the focus on `pane`, and the pane it came from noted.
    pub open spec fn with_focus(self, pane: FocusedPane) -> App {
        App { previous_pane: self.focused_pane, focused_pane: pane, ..self }
    }

    /// Only the search differs, and it is as `view` says.
    pub open spec fn search_became(self, view: SearchStateView, after: App) -> bool {
        after.search.deep_view() == view && after == (App { search: after.search, ..self })
    }

    /// Escape in a list pane: an active query is cleared; `otherwise`
    /// says what happens without one.
    pub open spec fn escaped(self, after: App, request: RequestView, otherwise: App) -> bool {
        request is Nothing && if self.search.query is Some {
            self.search_became(self.search.deep_view().cleared(), after)
        } else {
            after == otherwise
        }
    }

    /// The commit log follows the selected branch: with a branch selected
    /// its name is noted, the log is back at its top and the commits are
    /// asked for; without one the log is emptied.
    pub open spec fn log_follows(self, after: App, request: RequestView) -> bool {
        &&& after == (App { git_log: after.git_log, ..self })
        &&& match self.selected_branch() {
            Some(name) => {
                &&& request == RequestView::LoadBranchLog(name)
                &&& after.git_log.ref_name@ == name
                &&& after.git_log.scroll == 0
                &&& after.git_log.commits == self.git_log.commits
            },
            None => {
                &&& request is Nothing
                &&& after.git_log.ref_name@.len() == 0
                &&& after.git_log.commits@.len() == 0
                &&& after.git_log.scroll == self.git_log.scroll
            },
        }
    }

    /// The selection in the branch list goes to `idx`; where that is a
    /// move, the commit log follows.
    pub open spec fn branch_moved(self, idx: usize, after: App, request: RequestView) -> bool {
        if idx == self.branch_list.selected_idx {
            after == self && request is Nothing
        } else {
            (App {
                branch_list: BranchListState { selected_idx: idx, ..self.branch_list },
                ..self
            }).log_follows(after, request)
        }
    }

    /// The action menu opens for the selected branch, on its first action;
    /// without a selected branch nothing happens.
    pub open spec fn menu_opened(self, after: App) -> bool {
        &&& after == (App { branch_action_menu: after.branch_action_menu, ..self })
        &&& match self.selected_branch() {
            Some(name) => {
                &&& after.branch_action_menu is Some
                &&& after.branch_action_menu->0.branch_name@ == name
                &&& after.branch_action_menu->0.selected_idx == 0
                &&& after.branch_action_menu->0.is_head
                    == self.branch_list.branches[self.branch_list.selected_idx as int].is_head
            },
            None => after.branch_action_menu == self.branch_action_menu,
        }
    }

    /// An action of the branch menu: the menu closes. Switching to and
    /// deleting the current branch are refused with a note in the status;
    /// for another branch the shell is asked to do it. Setting the diff
    /// base takes the selected branch (the current branch stands for the
    /// default base) and asks for the diff.
    #[verifier::opaque]
    pub open spec fn action_post(self, action: BranchAction, after: App, request: RequestView) -> bool {
        match self.branch_action_menu {
            None => after == self && request is Nothing,
            Some(menu) => {
                let closed = App { branch_action_menu: None, ..self };
                match action {
                    BranchAction::Switch => if menu.is_head {
                        &&& request is Nothing
                        &&& after.status_message.deep_view() == Some("Already on this branch"@)
                        &&& after == (App { status_message: after.status_message, ..closed })
                    } else {
                        request == RequestView::SwitchBranch(menu.branch_name@) && after == closed
                    },
                    BranchAction::Delete => if menu.is_head {
                        &&& request is Nothing
                        &&& after.status_message.deep_view() == Some(
                            "Cannot delete the current branch"@,
                        )
                        &&& after == (App { status_message: after.status_message, ..closed })
                    } else {
                        request == RequestView::DeleteBranch(menu.branch_name@) && after == closed
                    },
                    BranchAction::DiffBase => match self.selected_branch() {
                        Some(name) => {
                            &&& request is RefreshDiff
                            &&& after.diff_base_ref.deep_view() == (if self.head_selected() {
                                None
                            } else {
                                Some(name)
                            })
                            &&& after == (App { diff_base_ref: after.diff_base_ref, ..closed })
                        },
                        None => request is Nothing && after == closed,
                    },
                }
            },
        }
    }

    /// The selection in the open action menu goes to `idx`.
    pub open spec fn menu_moved(self, idx: usize, after: App) -> bool {
        &&& after == (App { branch_action_menu: after.branch_action_menu, ..self })
        &&& after.branch_action_menu is Some
        &&& after.branch_action_menu->0.selected_idx == idx
        &&& after.branch_action_menu->0.branch_name == self.branch_action_menu->0.branch_name
        &&& after.branch_action_menu->0.is_head == self.branch_action_menu->0.is_head
    }

    /// A key while the branch action menu is open: Escape and `q` close
    /// it, `j` and `k` move in it, Enter carries out the selected action,
    /// `s`, `d` and `b` carry out theirs. Other keys do nothing.
    #[verifier::opaque]
    pub open spec fn menu_key_post(self, key: KeyEvent, after: App, request: RequestView) -> bool {
        match self.branch_action_menu {
            None => after == self && request is Nothing,
            Some(menu) => if key.code == KeyCode::Esc || key.code == KeyCode::Char('q') {
                request is Nothing && after == (App { branch_action_menu: None, ..self })
            } else if is_down(key.code) {
                request is Nothing && self.menu_moved(step_down(menu.selected_idx, 3), after)
            } else if is_up(key.code) {
                request is Nothing && self.menu_moved(step_up(menu.selected_idx), after)
            } else if key.code == KeyCode::Enter {
                if menu.selected_idx < 3 {
                    self.action_post(BranchAction::all()[menu.selected_idx as int], after, request)
                } else {
                    after == self && request is Nothing
                }
            } else if key.code == KeyCode::Char('s') {
                self.action_post(BranchAction::Switch, after, request)
            } else if key.code == KeyCode::Char('d') {
                self.action_post(BranchAction::Delete, after, request)
            } else if key.code == KeyCode::Char('b') {
                self.action_post(BranchAction::DiffBase, after, request)
            } else {
                after == self && request is Nothing
            },
        }
    }

    /// A key in the branch list: `h`, `l` and `i` move the focus; Escape
    /// clears the search or else drops the diff base and asks for the diff;
    /// `j` and `k` move the selection; Enter opens the action menu; `/`
    /// opens the search prompt; `n` and `N` jump.
    #[verifier::opaque]
    pub open spec fn branch_key_post(self, key: KeyEvent, after: App, request: RequestView) -> bool {
        let total = self.branch_list.branches.len() as int;
        let selected = self.branch_list.selected_idx;
        if key.code == KeyCode::Esc {
            if self.search.query is Some {
                request is Nothing && self.search_became(self.search.deep_view().cleared(), after)
            } else if self.diff_base_ref is Some {
                request is RefreshDiff && after == (App { diff_base_ref: None, ..self })
            } else {
                request is Nothing && after == self
            }
        } else if is_down(key.code) {
            self.branch_moved(step_down(selected, total), after, request)
        } else if is_up(key.code) {
            self.branch_moved(step_up(selected), after, request)
        } else if key.code == KeyCode::Enter {
            request is Nothing && self.menu_opened(after)
        } else if key.code == KeyCode::Char('h') {
            request is Nothing && after == self.with_focus(FocusedPane::FileTree)
        } else if key.code == KeyCode::Char('l') {
            request is Nothing && after == self.with_focus(FocusedPane::Reflog)
        } else if key.code == KeyCode::Char('i') {
            request is Nothing && after == self.with_focus(FocusedPane::GitLog)
        } else if key.code == KeyCode::Char('/') {
            request is Nothing && self.search_became(
                self.search.deep_view().started(SearchOrigin::BranchList),
                after,
            )
        } else if key.code == KeyCode::Char('n') || key.code == KeyCode::Char('N') {
            self.jump_post(key.code == KeyCode::Char('n'), after, request)
        } else {
            request is Nothing && after == self
        }
    }

    /// A key in the commit log: `h` moves the focus; Escape clears the
    /// search or else gives the focus back; `/` opens the search prompt; `n`
    /// and `N` jump; every other key scrolls as `log_scroll_after` says.
    #[verifier::opaque]
    pub open spec fn log_key_post(self, key: KeyEvent, after: App, request: RequestView) -> bool {
        if key.code == KeyCode::Esc {
            self.escaped(after, request, self.with_focus(self.previous_pane))
        } else if key.code == KeyCode::Char('h') {
            request is Nothing && after == self.with_focus(FocusedPane::Reflog)
        } else if key.code == KeyCode::Char('/') {
            request is Nothing && self.search_became(
                self.search.deep_view().started(SearchOrigin::CommitLog),
                after,
            )
        } else if key.code == KeyCode::Char('n') || key.code == KeyCode::Char('N') {
            self.jump_post(key.code == KeyCode::Char('n'), after, request)
        } else {
            request is Nothing && after == (App {
                git_log: GitLogState { scroll: self.log_scroll_after(key), ..self.git_log },
                ..self
            })
        }
    }

    /// A key in the reflog: `h` and `i` move the focus; Escape clears the
    /// search or else gives the focus to the branch list; Enter makes the
    /// selected entry the base of the diff and asks for the diff; `/` opens
    /// the search prompt; `n` and `N` jump; every other key moves the
    /// selection as `reflog_selection_after` says.
    #[verifier::opaque]
    pub open spec fn reflog_key_post(self, key: KeyEvent, after: App, request: RequestView) -> bool {
        if key.code == KeyCode::Esc {
            self.escaped(after, request, self.with_focus(FocusedPane::BranchList))
        } else if key.code == KeyCode::Char('h') {
            request is Nothing && after == self.with_focus(FocusedPane::BranchList)
        } else if key.code == KeyCode::Char('i') {
            request is Nothing && after == self.with_focus(FocusedPane::GitLog)
        } else if key.code == KeyCode::Enter {
            if self.reflog.selected_idx < self.reflog.entries.len() {
                &&& request is RefreshDiff
                &&& after.diff_base_ref.deep_view() == Some(
                    self.reflog.entries[self.reflog.selected_idx as int].full_hash@,
                )
                &&& after == (App { diff_base_ref: after.diff_base_ref, ..self })
            } else {
                request is Nothing && after == self
            }
        } else if key.code == KeyCode::Char('/') {
            request is Nothing && self.search_became(
                self.search.deep_view().started(SearchOrigin::Reflog),
                after,
            )
        } else if key.code == KeyCode::Char('n') || key.code == KeyCode::Char('N') {
            self.jump_post(key.code == KeyCode::Char('n'), after, request)
        } else {
            request is Nothing && after == (App {
                reflog: ReflogState {
                    selected_idx: self.reflog_selection_after(key),
                    ..self.reflog
                },
                ..self
            })
        }
    }

    /// The state after the input of the search prompt was confirmed and
    /// run, before the jump to its first match: the prompt is closed, the
    /// input is the active query and stands in the history, and the matches
    /// are those of the pane the search started from.
    pub open spec fn confirmed(self, asked: App) -> bool {
        &&& self.files.same_but_content(asked.files)
        &&& asked == (App { search: asked.search, files: asked.files, ..self })
        &&& asked.search.deep_view() == (SearchStateView {
            active: false,
            query: Some(self.search.input@),
            matches: self.origin_matches(self.search.origin, self.search.input@),
            current_match_idx: None,
            ..self.search.deep_view().with_history(self.search.input@)
        })
    }

    /// A key in the search prompt. Enter closes the prompt; with an input
    /// it confirms it, runs it and jumps forward to its first match. Escape
    /// closes the prompt and drops the input. Backspace deletes the last
    /// character. Up and Down, or Control-p and Control-n, browse the
    /// history. Any other character is typed.
    #[verifier::opaque]
    pub open spec fn prompt_key_post(self, key: KeyEvent, after: App, request: RequestView) -> bool {
        let view = self.search.deep_view();
        match key.code {
            KeyCode::Enter => if self.search.input@.len() == 0 {
                request is Nothing && self.search_became(
                    SearchStateView { active: false, ..view },
                    after,
                )
            } else {
                exists|asked: App| #[trigger] self.confirmed(asked) && asked.jump_post(true, after, request)
            },
            KeyCode::Esc => request is Nothing && self.search_became(
                SearchStateView { active: false, input: Seq::empty(), ..view },
                after,
            ),
            KeyCode::Backspace => request is Nothing && self.search_became(
                SearchStateView {
                    input: if view.input.len() > 0 {
                        view.input.drop_last()
                    } else {
                        view.input
                    },
                    history_idx: None,
                    ..view
                },
                after,
            ),
            KeyCode::Up => request is Nothing && self.search_became(view.history_back(), after),
            KeyCode::Down => request is Nothing && self.search_became(view.history_forward(), after),
            KeyCode::Char(c) => request is Nothing && self.search_became(
                if c == 'p' && key.ctrl {
                    view.history_back()
                } else if c == 'n' && key.ctrl {
                    view.history_forward()
                } else {
                    SearchStateView { input: view.input.push(c), history_idx: None, ..view }
                },
                after,
            ),
            _ => request is Nothing && after == self,
        }
    }

    /// The selection in the file tree goes to `idx`: the diff view is back
    /// at its top left, what is kept of the content is dropped, and a
    /// search in the diff view is run again for the newly selected file.
    pub open spec fn tree_selected(self, idx: usize, after: App) -> bool {
        &&& after == (App { files: after.files, diff: after.diff, search: after.search, ..self })
        &&& (DiffFiles { selected_tree_idx: idx, ..self.files }).same_but_content(after.files)
        &&& after.diff == (DiffViewState { scroll_y: 0, scroll_x: 0, ..self.diff })
        &&& if self.search.origin == SearchOrigin::DiffView && self.search.query is Some {
            after.search.deep_view() == (SearchStateView {
                matches: diff_matches(after.files.selected_hunks(), self.search.query->0@),
                current_match_idx: None,
                ..self.search.deep_view()
            })
        } else {
            after.search == self.search
        }
    }

    /// The directory `path` is collapsed, or expanded again.
    pub open spec fn dir_toggled(self, path: Seq<char>, after: App) -> bool {
        &&& after == self.with_files(after.files)
        &&& after.files == (DiffFiles {
            collapsed_dirs: after.files.collapsed_dirs,
            content_lines_cache: None,
            ..self.files
        })
        &&& after.files.collapsed_dirs.deep_view() == DiffFiles::toggled(
            self.files.collapsed_dirs.deep_view(),
            path,
        )
    }

    /// A key in the file tree. `l` and `i` move the focus and Escape
    /// clears the search, whatever the tree holds. On a tree with entries:
    /// `j` and `k` move the selection; Space collapses or expands the
    /// selected directory; Enter and Right do so too, or open the diff view
    /// on the selected file; `/` opens the search prompt; `n` and `N` jump.
    #[verifier::opaque]
    pub open spec fn tree_key_post(self, key: KeyEvent, after: App, request: RequestView) -> bool {
        let tree = self.files.tree();
        let selected = self.files.selected_tree_idx;
        let opens = key.code == KeyCode::Right || key.code == KeyCode::Enter;
        if key.code == KeyCode::Char('l') {
            request is Nothing && after == self.with_focus(FocusedPane::BranchList)
        } else if key.code == KeyCode::Char('i') {
            request is Nothing && after == self.with_focus(FocusedPane::DiffView)
        } else if key.code == KeyCode::Esc {
            self.escaped(after, request, self)
        } else if tree.len() == 0 {
            request is Nothing && after == self
        } else if is_down(key.code) {
            request is Nothing && if selected + 1 < tree.len() {
                self.tree_selected((selected + 1) as usize, after)
            } else {
                after == self
            }
        } else if is_up(key.code) {
            request is Nothing && if selected > 0 {
                self.tree_selected((selected - 1) as usize, after)
            } else {
                after == self
            }
        } else if opens || key.code == KeyCode::Char(' ') {
            request is Nothing && if selected < tree.len() {
                match tree[selected as int] {
                    TreeEntryView::Dir { path, .. } => self.dir_toggled(path, after),
                    TreeEntryView::File { .. } => if opens {
                        after == (App {
                            diff: DiffViewState { scroll_y: 0, scroll_x: 0, ..self.diff },
                            ..self.with_focus(FocusedPane::DiffView)
                        })
                    } else {
                        after == self
                    },
                }
            } else {
                after == self
            }
        } else if key.code == KeyCode::Char('/') {
            request is Nothing && self.search_became(
                self.search.deep_view().started(SearchOrigin::FileTree),
                after,
            )
        } else if key.code == KeyCode::Char('n') || key.code == KeyCode::Char('N') {
            self.jump_post(key.code == KeyCode::Char('n'), after, request)
        } else {
            request is Nothing && after == self
        }
    }

    /// A key in the GitHub view: `q` quits, `?` opens the help, `r`
    /// fetches the lists again; any other key goes to the pane of the
    /// panel that has the focus.
    #[verifier::opaque]
    pub open spec fn github_key_post(self, key: KeyEvent, after: App, request: RequestView) -> bool {
        if key.code == KeyCode::Char('q') {
            request is Nothing && after == (App { should_quit: true, ..self })
        } else if key.code == KeyCode::Char('?') {
            request is Nothing && after == (App { show_help: true, ..self })
        } else if key.code == KeyCode::Char('r') {
            &&& request is GhRefresh
            &&& after == (App { github: after.github, ..self })
            &&& self.github.refreshed(after.github)
        } else {
            &&& after == (App { github: after.github, ..self })
            &&& self.github.key_post(key, after.github, request)
        }
    }

    /// A key that works in every pane of the Git view: `q` quits, `?`
    /// opens the help, `/` opens the search prompt for the pane, `n` and `N`
    /// jump, `r` asks to read everything again, `e` asks for the editor, Tab
    /// and BackTab move the focus around the panes.
    #[verifier::opaque]
    pub open spec fn global_key_post(self, key: KeyEvent, after: App, request: RequestView) -> bool {
        match key.code {
            KeyCode::Tab => request is Nothing && after == self.with_focus(
                next_pane(self.focused_pane),
            ),
            KeyCode::BackTab => request is Nothing && after == self.with_focus(
                prev_pane(self.focused_pane),
            ),
            KeyCode::Char(c) => if c == 'q' {
                request is Nothing && after == (App { should_quit: true, ..self })
            } else if c == '?' {
                request is Nothing && after == (App { show_help: true, ..self })
            } else if c == '/' {
                request is Nothing && self.search_became(
                    self.search.deep_view().started(origin_of(self.focused_pane)),
                    after,
                )
            } else if c == 'r' {
                request is Reload && after == self
            } else if c == 'e' {
                request is OpenEditor && after == self
            } else if c == 'n' || c == 'N' {
                self.jump_post(c == 'n', after, request)
            } else {
                request is Nothing && after == self
            },
            _ => request is Nothing && after == self,
        }
    }
}

} // verus!
