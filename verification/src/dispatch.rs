//! The single entry point for key presses: which part of the application a
//! key goes to, in the order of precedence, and what it does there.

use crate::app::{App, FocusedPane, ViewMode};
use crate::cursor::DiffViewMode;
use crate::github::state::{GhDetailKind, GitHubState};
use crate::keys::{KeyCode, KeyEvent};
use crate::request::{Request, RequestView};
use crate::search::SearchOrigin;
use crate::text::{decimal, push_decimal, push_text};
use vstd::prelude::*;

verus! {

/// The part of the application that takes a key.
#[derive(Debug, Clone, Copy, PartialEq, Eq, Structural)]
pub enum KeyTarget {
    /// The help overlay is open: any key closes it.
    Help,
    /// The error dialog is open: any key dismisses it.
    Dialog,
    /// The branch action menu is open.
    Menu,
    /// The search prompt is open.
    SearchPrompt,
    /// Control-c quits.
    Quit,
    /// The diff view has the focus and is in Normal or a visual mode.
    DiffEngine,
    /// `1` shows the Git view.
    ShowGit,
    /// `2` shows the GitHub view.
    ShowGitHub,
    /// A key of the Git view that works in every pane.
    Global,
    /// The pane of the Git view that has the focus.
    Pane,
    /// The GitHub view.
    GitHub,
}

/// Whether a key works in every pane of the Git view.
pub open spec fn is_global(code: KeyCode) -> bool {
    match code {
        KeyCode::Tab | KeyCode::BackTab => true,
        KeyCode::Char(c) => c == 'q' || c == '?' || c == '/' || c == 'n' || c == 'N' || c == 'r'
            || c == 'e',
        _ => false,
    }
}

/// The pane that Tab goes to.
pub open spec fn next_pane(pane: FocusedPane) -> FocusedPane {
    match pane {
        FocusedPane::FileTree => FocusedPane::BranchList,
        FocusedPane::BranchList => FocusedPane::Reflog,
        FocusedPane::Reflog => FocusedPane::GitLog,
        FocusedPane::GitLog => FocusedPane::DiffView,
        FocusedPane::DiffView => FocusedPane::FileTree,
    }
}

/// The pane that BackTab goes to.
pub open spec fn prev_pane(pane: FocusedPane) -> FocusedPane {
    match pane {
        FocusedPane::FileTree => FocusedPane::DiffView,
        FocusedPane::BranchList => FocusedPane::FileTree,
        FocusedPane::Reflog => FocusedPane::BranchList,
        FocusedPane::GitLog => FocusedPane::Reflog,
        FocusedPane::DiffView => FocusedPane::GitLog,
    }
}

/// The search origin that belongs to a pane.
pub open spec fn origin_of(pane: FocusedPane) -> SearchOrigin {
    match pane {
        FocusedPane::DiffView => SearchOrigin::DiffView,
        FocusedPane::FileTree => SearchOrigin::FileTree,
        FocusedPane::BranchList => SearchOrigin::BranchList,
        FocusedPane::GitLog => SearchOrigin::CommitLog,
        FocusedPane::Reflog => SearchOrigin::Reflog,
    }
}

/// The status text after the browser was asked to open an issue or a pull
/// request.
pub open spec fn browser_status(kind: GhDetailKind, number: u64, outcome: Result<(), String>) -> Seq<
    char,
> {
    match outcome {
        Ok(_) => (match kind {
            GhDetailKind::Issue => "Opening issue #"@,
            GhDetailKind::Pr => "Opening PR #"@,
        }) + decimal(number as nat) + " in browser..."@,
        Err(error) => "Failed to open browser: "@ + error@,
    }
}

/// How the editor that was opened on the selected file came back: it ran
/// and succeeded, it ran and ended with the given status, or it could not
/// be started.
#[derive(Debug)]
pub enum EditorOutcome {
    Succeeded,
    Exited(String),
    Failed(String),
}

impl App {
    /// The part of the application that takes the key, in the order of
    /// precedence: overlays first, then the prompt, then Control-c, then the
    /// modal diff view, then the keys that switch views.
    pub open spec fn key_target(self, key: KeyEvent) -> KeyTarget {
        if self.show_help {
            KeyTarget::Help
        } else if self.error_dialog is Some {
            KeyTarget::Dialog
        } else if self.branch_action_menu is Some {
            KeyTarget::Menu
        } else if self.search.active {
            KeyTarget::SearchPrompt
        } else if key.ctrl && key.code == KeyCode::Char('c') {
            KeyTarget::Quit
        } else if self.view_mode == ViewMode::Git && self.focused_pane == FocusedPane::DiffView
            && self.diff.mode != DiffViewMode::Scroll {
            KeyTarget::DiffEngine
        } else if key.code == KeyCode::Char('1') {
            KeyTarget::ShowGit
        } else if key.code == KeyCode::Char('2') {
            KeyTarget::ShowGitHub
        } else if self.view_mode == ViewMode::GitHub {
            KeyTarget::GitHub
        } else if is_global(key.code) {
            KeyTarget::Global
        } else {
            KeyTarget::Pane
        }
    }

    /// Handles a key that works in every pane of the Git view: `q` quits,
    /// `?` opens the help, `/` opens the search prompt for the pane, `n` and
    /// `N` go to the next and the previous match, `r` asks to read
    /// everything again, `e` asks for the editor, Tab and BackTab move the
    /// focus.
    fn handle_global_key(&mut self, key: KeyEvent) -> (request: Request)
        requires
            old(self).wf(),
            crate::dispatch::is_global(key.code),
        ensures
            final(self).wf(),
            old(self).global_key_post(key, *final(self), request.deep_view()),
    {
        reveal(App::global_key_post);
        match key.code {
            KeyCode::Tab => {
                let next = match self.focused_pane {
                    FocusedPane::FileTree => FocusedPane::BranchList,
                    FocusedPane::BranchList => FocusedPane::Reflog,
                    FocusedPane::Reflog => FocusedPane::GitLog,
                    FocusedPane::GitLog => FocusedPane::DiffView,
                    FocusedPane::DiffView => FocusedPane::FileTree,
                };
                self.set_focus(next);
                Request::Nothing
            },
            KeyCode::BackTab => {
                let prev = match self.focused_pane {
                    FocusedPane::FileTree => FocusedPane::DiffView,
                    FocusedPane::BranchList => FocusedPane::FileTree,
                    FocusedPane::Reflog => FocusedPane::BranchList,
                    FocusedPane::GitLog => FocusedPane::Reflog,
                    FocusedPane::DiffView => FocusedPane::GitLog,
                };
                self.set_focus(prev);
                Request::Nothing
            },
            KeyCode::Char(c) => {
                if c == 'q' {
                    self.should_quit = true;
                    Request::Nothing
                } else if c == '?' {
                    self.show_help = true;
                    Request::Nothing
                } else if c == '/' {
                    let origin = match self.focused_pane {
                        FocusedPane::DiffView => SearchOrigin::DiffView,
                        FocusedPane::FileTree => SearchOrigin::FileTree,
                        FocusedPane::BranchList => SearchOrigin::BranchList,
                        FocusedPane::GitLog => SearchOrigin::CommitLog,
                        FocusedPane::Reflog => SearchOrigin::Reflog,
                    };
                    self.search.start(origin);
                    Request::Nothing
                } else if c == 'r' {
                    Request::Reload
                } else if c == 'e' {
                    Request::OpenEditor
                } else {
                    self.jump_to_match(c == 'n')
                }
            },
            _ => Request::Nothing,
        }
    }

    /// Handles a key in the GitHub view: `q` quits, `?` opens the help,
    /// `r` fetches the lists again; any other key goes to the pane that has
    /// the focus.
    pub fn handle_github_key(&mut self, key: KeyEvent) -> (request: Request)
        ensures
            old(self).github_key_post(key, *final(self), request.deep_view()),
            final(self).files == old(self).files,
    {
        reveal(App::github_key_post);
        match key.code {
            KeyCode::Char(c) => {
                if c == 'q' {
                    self.should_quit = true;
                    return Request::Nothing;
                } else if c == '?' {
                    self.show_help = true;
                    return Request::Nothing;
                } else if c == 'r' {
                    return self.github.refresh();
                }
            },
            _ => {},
        }
        self.github.handle_key(key)
    }

    /// What a key leaves behind, by the part of the application that
    /// takes it. An open help or error dialog is closed by any key, which
    /// does nothing else. Control-c quits. `1` and `2` switch views; the
    /// GitHub view asks for its lists when it is shown for the first time.
    /// Every other target has its own description.
    pub open spec fn key_post(self, key: KeyEvent, after: App, request: RequestView) -> bool {
        match self.key_target(key) {
            KeyTarget::Help => request is Nothing && after == (App { show_help: false, ..self }),
            KeyTarget::Dialog => request is Nothing && after == (App { error_dialog: None, ..self }),
            KeyTarget::Menu => self.menu_key_post(key, after, request),
            KeyTarget::SearchPrompt => self.prompt_key_post(key, after, request),
            KeyTarget::Quit => request is Nothing && after == (App { should_quit: true, ..self }),
            KeyTarget::DiffEngine => self.diff_key_post(self.diff_step(key), after, request, true)
                && (after.lines().len() > 0 ==> after.diff.cursor_pos.in_bounds(after.lines())),
            KeyTarget::ShowGit => request is Nothing && after == (App {
                view_mode: ViewMode::Git,
                ..self
            }),
            KeyTarget::ShowGitHub => {
                &&& after == (App { view_mode: ViewMode::GitHub, github: after.github, ..self })
                &&& if self.github.initialized {
                    request is Nothing && after.github == self.github
                } else {
                    request is GhInitialize && after.github == (GitHubState {
                        initialized: true,
                        issues_loading: true,
                        prs_loading: true,
                        ..self.github
                    })
                }
            },
            KeyTarget::GitHub => self.github_key_post(key, after, request),
            KeyTarget::Global => self.global_key_post(key, after, request),
            KeyTarget::Pane => match self.focused_pane {
                FocusedPane::FileTree => self.tree_key_post(key, after, request),
                FocusedPane::BranchList => self.branch_key_post(key, after, request),
                FocusedPane::GitLog => self.log_key_post(key, after, request),
                FocusedPane::Reflog => self.reflog_key_post(key, after, request),
                FocusedPane::DiffView => self.diff_key_post(
                    self.diff_step(key),
                    after,
                    request,
                    self.diff.mode != DiffViewMode::Scroll,
                ),
            },
        }
    }

    /// Applies one key press to the application. Overlays take the key
    /// first, then the search prompt; Control-c quits; the diff view in
    /// Normal or a visual mode takes every other key; `1` and `2` switch
    /// views; the rest goes to the view and the pane that has the focus.
    pub fn handle_key(&mut self, key: KeyEvent) -> (request: Request)
        requires
            old(self).wf(),
        ensures
            final(self).wf(),
            old(self).key_post(key, *final(self), request.deep_view()),
    {
        if self.show_help {
            self.show_help = false;
            return Request::Nothing;
        }
        if self.error_dialog.is_some() {
            self.error_dialog = None;
            return Request::Nothing;
        }
        if self.branch_action_menu.is_some() {
            return self.handle_branch_action_menu_key(key);
        }
        if self.search.active {
            return self.handle_search_input_key(key);
        }
        let code = key.code;
        if key.ctrl && code == KeyCode::Char('c') {
            self.should_quit = true;
            return Request::Nothing;
        }
        if self.view_mode == ViewMode::Git && self.focused_pane == FocusedPane::DiffView
            && self.diff.mode != DiffViewMode::Scroll {
            return self.handle_diff_view_key(key);
        }
        if code == KeyCode::Char('1') {
            self.view_mode = ViewMode::Git;
            return Request::Nothing;
        }
        if code == KeyCode::Char('2') {
            self.view_mode = ViewMode::GitHub;
            return self.github.initialize();
        }
        match self.view_mode {
            ViewMode::GitHub => self.handle_github_key(key),
            ViewMode::Git => {
                let global = match code {
                    KeyCode::Tab | KeyCode::BackTab => true,
                    KeyCode::Char(c) => c == 'q' || c == '?' || c == '/' || c == 'n' || c == 'N'
                        || c == 'r' || c == 'e',
                    _ => false,
                };
                if global {
                    self.handle_global_key(key)
                } else {
                    match self.focused_pane {
                        FocusedPane::FileTree => self.handle_file_tree_key(key),
                        FocusedPane::BranchList => self.handle_branch_list_key(key),
                        FocusedPane::GitLog => self.handle_git_log_key(key),
                        FocusedPane::Reflog => self.handle_reflog_key(key),
                        FocusedPane::DiffView => self.handle_diff_view_key(key),
                    }
                }
            },
        }
    }

    /// Takes in how the editor came back: after a run that succeeded the
    /// diff is asked for again; anything else is noted in the status.
    pub fn editor_closed(&mut self, outcome: EditorOutcome) -> (request: Request)
        ensures
            match outcome {
                EditorOutcome::Succeeded => request is RefreshDiff && *final(self) == *old(self),
                EditorOutcome::Exited(status) => {
                    &&& request is Nothing
                    &&& final(self).status_message.deep_view() == Some(
                        "Editor exited with: "@ + status@,
                    )
                    &&& *final(self) == (App {
                        status_message: final(self).status_message,
                        ..*old(self)
                    })
                },
                EditorOutcome::Failed(error) => {
                    &&& request is Nothing
                    &&& final(self).status_message.deep_view() == Some(
                        "Failed to open editor: "@ + error@,
                    )
                    &&& *final(self) == (App {
                        status_message: final(self).status_message,
                        ..*old(self)
                    })
                },
            },
    {
        match outcome {
            EditorOutcome::Succeeded => Request::RefreshDiff,
            EditorOutcome::Exited(status) => {
                self.status_message = Some(
                    crate::text::prefixed("Editor exited with: ", status.as_str()),
                );
                Request::Nothing
            },
            EditorOutcome::Failed(error) => {
                self.status_message = Some(
                    crate::text::prefixed("Failed to open editor: ", error.as_str()),
                );
                Request::Nothing
            },
        }
    }

    /// Notes how asking the browser to open an issue or a pull request went.
    pub fn browser_opened(&mut self, kind: GhDetailKind, number: u64, outcome: Result<(), String>)
        ensures
            final(self).status_message.deep_view() == Some(browser_status(kind, number, outcome)),
            *final(self) == (App { status_message: final(self).status_message, ..*old(self) }),
    {
        let message = match outcome {
            Ok(_) => {
                let mut m = match kind {
                    GhDetailKind::Issue => "Opening issue #".to_owned(),
                    GhDetailKind::Pr => "Opening PR #".to_owned(),
                };
                push_decimal(&mut m, number);
                push_text(&mut m, " in browser...");
                m
            },
            Err(error) => crate::text::prefixed("Failed to open browser: ", error.as_str()),
        };
        self.status_message = Some(message);
    }
}

} // verus!
