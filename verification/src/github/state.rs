//! The state of the GitHub panel. Lists and details arrive as messages from
//! background work that the shell runs; the state decides what to show and
//! what to fetch next.

use crate::github::types::{GhIssueDetail, GhIssueListItem, GhPrDetail, GhPrListItem};
use crate::keys::{KeyCode, KeyEvent};
use crate::request::{Request, RequestView};
use std::collections::HashMap;
use vstd::prelude::*;

verus! {

broadcast use vstd::std_specs::hash::group_hash_axioms;

/// The panes of the GitHub view that can have the focus.
#[derive(Debug, Clone, Copy, PartialEq, Eq, Structural)]
pub enum GhFocusedPane {
    IssueList,
    PrList,
    Detail,
}

/// What a detail is the detail of.
#[derive(Debug, Clone, Copy, PartialEq, Eq, Structural)]
pub enum GhDetailKind {
    Issue,
    Pr,
}

/// The panes inside the detail view.
#[derive(Debug, Clone, Copy, PartialEq, Eq, Structural)]
pub enum GhDetailPane {
    Body,
    Status,
    Comments,
}

/// What the detail pane shows.
#[derive(Debug)]
pub enum GhDetailContent {
    /// Nothing is selected.
    Empty,
    Loading { kind: GhDetailKind, number: u64 },
    Issue(Box<GhIssueDetail>),
    Pr(Box<GhPrDetail>),
    Error(String),
}

/// What background work reports.
#[derive(Debug)]
pub enum GhBgMessage {
    AuthStatus(Result<(), String>),
    IssueList(Result<Vec<GhIssueListItem>, String>),
    PrList(Result<Vec<GhPrListItem>, String>),
    IssueDetail(Result<GhIssueDetail, String>),
    PrDetail(Result<GhPrDetail, String>),
}

/// Whether a message is a list of issues that arrived.
pub open spec fn is_issue_list(message: GhBgMessage) -> bool {
    message matches GhBgMessage::IssueList(Ok(_))
}

/// The whole state of the GitHub panel.
pub struct GitHubState {
    pub gh_available: Option<bool>,
    pub gh_error: Option<String>,
    pub issues: Vec<GhIssueListItem>,
    pub prs: Vec<GhPrListItem>,
    pub issues_loading: bool,
    pub prs_loading: bool,
    pub issue_selected_idx: usize,
    pub pr_selected_idx: usize,
    pub focused_pane: GhFocusedPane,
    pub previous_pane: GhFocusedPane,
    pub detail: GhDetailContent,
    pub detail_pane: GhDetailPane,
    pub detail_scroll_body: u16,
    pub detail_scroll_status: u16,
    pub detail_scroll_comments: u16,
    pub detail_view_height: u16,
    pub issue_cache: HashMap<u64, GhIssueDetail>,
    pub pr_cache: HashMap<u64, GhPrDetail>,
    pub initialized: bool,
}

impl GitHubState {
    /// Whether this is the state before the panel has been shown: nothing
    /// is known, listed, loading, cached or shown; the list of issues has
    /// the focus.
    pub open spec fn is_fresh(self) -> bool {
        &&& self.gh_available is None
        &&& self.gh_error is None
        &&& self.issues@.len() == 0
        &&& self.prs@.len() == 0
        &&& !self.issues_loading
        &&& !self.prs_loading
        &&& self.issue_selected_idx == 0
        &&& self.pr_selected_idx == 0
        &&& self.focused_pane == GhFocusedPane::IssueList
        &&& self.previous_pane == GhFocusedPane::IssueList
        &&& self.detail is Empty
        &&& self.detail_pane == GhDetailPane::Body
        &&& self.detail_scroll_body == 0
        &&& self.detail_scroll_status == 0
        &&& self.detail_scroll_comments == 0
        &&& self.detail_view_height == 0
        &&& self.issue_cache@.len() == 0
        &&& self.pr_cache@.len() == 0
        &&& !self.initialized
    }

    /// The state before the panel has been shown.
    pub fn new() -> (s: Self)
        ensures
            s.is_fresh(),
    {
        Self {
            gh_available: None,
            gh_error: None,
            issues: Vec::new(),
            prs: Vec::new(),
            issues_loading: false,
            prs_loading: false,
            issue_selected_idx: 0,
            pr_selected_idx: 0,
            focused_pane: GhFocusedPane::IssueList,
            previous_pane: GhFocusedPane::IssueList,
            detail: GhDetailContent::Empty,
            detail_pane: GhDetailPane::Body,
            detail_scroll_body: 0,
            detail_scroll_status: 0,
            detail_scroll_comments: 0,
            detail_view_height: 0,
            issue_cache: HashMap::new(),
            pr_cache: HashMap::new(),
            initialized: false,
        }
    }

    /// The scroll position of the active detail pane.
    pub open spec fn active_scroll(self) -> u16 {
        match self.detail_pane {
            GhDetailPane::Body => self.detail_scroll_body,
            GhDetailPane::Status => self.detail_scroll_status,
            GhDetailPane::Comments => self.detail_scroll_comments,
        }
    }

    /// The state with the scroll position of the active detail pane set.
    pub open spec fn with_active_scroll(self, value: u16) -> GitHubState {
        match self.detail_pane {
            GhDetailPane::Body => GitHubState { detail_scroll_body: value, ..self },
            GhDetailPane::Status => GitHubState { detail_scroll_status: value, ..self },
            GhDetailPane::Comments => GitHubState { detail_scroll_comments: value, ..self },
        }
    }

    /// The scroll position of the active detail pane, for writing.
    pub fn active_detail_scroll_mut(&mut self) -> (scroll: &mut u16)
        ensures
            *scroll == old(self).active_scroll(),
            *final(self) == old(self).with_active_scroll(*final(scroll)),
    {
        match self.detail_pane {
            GhDetailPane::Body => &mut self.detail_scroll_body,
            GhDetailPane::Status => &mut self.detail_scroll_status,
            GhDetailPane::Comments => &mut self.detail_scroll_comments,
        }
    }

    /// Whether the detail shown is a pull request.
    pub fn is_pr(&self) -> (r: bool)
        ensures
            r == (self.detail is Pr),
    {
        match &self.detail {
            GhDetailContent::Pr(_) => true,
            _ => false,
        }
    }

    /// The detail panes back at their start: the body pane active, nothing
    /// scrolled.
    pub open spec fn with_panes_reset(self) -> GitHubState {
        GitHubState {
            detail_pane: GhDetailPane::Body,
            detail_scroll_body: 0,
            detail_scroll_status: 0,
            detail_scroll_comments: 0,
            ..self
        }
    }

    /// Goes back to the body pane and scrolls every pane to its top.
    pub fn reset_detail_panes(&mut self)
        ensures
            *final(self) == old(self).with_panes_reset(),
    {
        self.detail_pane = GhDetailPane::Body;
        self.detail_scroll_body = 0;
        self.detail_scroll_status = 0;
        self.detail_scroll_comments = 0;
    }

    /// Marks the panel as initialised on the first call and asks for the
    /// first fetch; later calls ask for nothing.
    pub fn initialize(&mut self) -> (request: Request)
        ensures
            old(self).initialized ==> *final(self) == *old(self) && request is Nothing,
            !old(self).initialized ==> request is GhInitialize && *final(self) == (GitHubState {
                initialized: true,
                issues_loading: true,
                prs_loading: true,
                ..*old(self)
            }),
    {
        if self.initialized {
            return Request::Nothing;
        }
        self.initialized = true;
        self.issues_loading = true;
        self.prs_loading = true;
        Request::GhInitialize
    }

    /// Shows the issue with this number: from the cache where it is there,
    /// otherwise as loading, with a request to fetch it.
    pub fn load_issue_detail(&mut self, number: u64) -> (request: Request)
        ensures
            old(self).issue_shown(number, *final(self), request.deep_view()),
    {
        let request = match self.issue_cache.get(&number) {
            Some(cached) => {
                self.detail = GhDetailContent::Issue(Box::new(cached.clone()));
                Request::Nothing
            },
            None => {
                self.detail = GhDetailContent::Loading { kind: GhDetailKind::Issue, number };
                Request::GhLoadIssue(number)
            },
        };
        self.reset_detail_panes();
        request
    }

    /// Shows the pull request with this number: from the cache where it is
    /// there, otherwise as loading, with a request to fetch it.
    pub fn load_pr_detail(&mut self, number: u64) -> (request: Request)
        ensures
            old(self).pr_shown(number, *final(self), request.deep_view()),
    {
        let request = match self.pr_cache.get(&number) {
            Some(cached) => {
                self.detail = GhDetailContent::Pr(Box::new(cached.clone()));
                Request::Nothing
            },
            None => {
                self.detail = GhDetailContent::Loading { kind: GhDetailKind::Pr, number };
                Request::GhLoadPr(number)
            },
        };
        self.reset_detail_panes();
        request
    }

    /// Shows the detail of the selected issue, if one is selected.
    pub fn load_selected_issue_detail(&mut self) -> (request: Request)
        ensures
            old(self).selected_issue_shown(*final(self), request.deep_view()),
    {
        if self.issue_selected_idx < self.issues.len() {
            let number = self.issues[self.issue_selected_idx].number;
            self.load_issue_detail(number)
        } else {
            Request::Nothing
        }
    }

    /// Shows the detail of the selected pull request, if one is selected.
    pub fn load_selected_pr_detail(&mut self) -> (request: Request)
        ensures
            old(self).selected_pr_shown(*final(self), request.deep_view()),
    {
        if self.pr_selected_idx < self.prs.len() {
            let number = self.prs[self.pr_selected_idx].number;
            self.load_pr_detail(number)
        } else {
            Request::Nothing
        }
    }

    /// Forgets the cached details and asks for the lists again.
    pub fn refresh(&mut self) -> (request: Request)
        ensures
            request is GhRefresh,
            old(self).refreshed(*final(self)),
    {
        self.issues_loading = true;
        self.prs_loading = true;
        self.gh_error = None;
        self.issue_cache = HashMap::new();
        self.pr_cache = HashMap::new();
        Request::GhRefresh
    }

    /// The error shown after another failure: the first error stays.
    pub open spec fn first_error(self, error: String) -> Option<String> {
        if self.gh_error is None {
            Some(error)
        } else {
            self.gh_error
        }
    }

    /// How the state after one message from background work relates to
    /// the state before. A good authentication clears the error; a bad one
    /// is the error, and nothing counts as loading any more. A list that
    /// arrived replaces the list shown; a list that failed leaves it and is
    /// the error if there is none yet. A detail that arrived is shown and a
    /// copy of it is in the cache under its number; a detail that failed is
    /// shown as its error. Nothing else changes.
    pub open spec fn message_applied(self, message: GhBgMessage, after: GitHubState) -> bool {
        match message {
            GhBgMessage::AuthStatus(Ok(_)) => after == (GitHubState {
                gh_available: Some(true),
                gh_error: None,
                ..self
            }),
            GhBgMessage::AuthStatus(Err(e)) => after == (GitHubState {
                gh_available: Some(false),
                gh_error: Some(e),
                issues_loading: false,
                prs_loading: false,
                ..self
            }),
            GhBgMessage::IssueList(Ok(issues)) => after == (GitHubState {
                issues_loading: false,
                issues,
                ..self
            }),
            GhBgMessage::IssueList(Err(e)) => after == (GitHubState {
                issues_loading: false,
                gh_error: self.first_error(e),
                ..self
            }),
            GhBgMessage::PrList(Ok(prs)) => after == (GitHubState { prs_loading: false, prs, ..self }),
            GhBgMessage::PrList(Err(e)) => after == (GitHubState {
                prs_loading: false,
                gh_error: self.first_error(e),
                ..self
            }),
            GhBgMessage::IssueDetail(Ok(detail)) => {
                &&& after == (GitHubState {
                    detail: GhDetailContent::Issue(Box::new(detail)),
                    issue_cache: after.issue_cache,
                    ..self
                })
                &&& after.issue_cache@.dom() == self.issue_cache@.dom().insert(detail.number)
                &&& detail.same(after.issue_cache@[detail.number])
                &&& forall|n: u64|
                    n != detail.number && self.issue_cache@.contains_key(n) ==> (
                    #[trigger] after.issue_cache@[n]) == self.issue_cache@[n]
            },
            GhBgMessage::IssueDetail(Err(e)) => after == (GitHubState {
                detail: GhDetailContent::Error(e),
                ..self
            }),
            GhBgMessage::PrDetail(Ok(detail)) => {
                &&& after == (GitHubState {
                    detail: GhDetailContent::Pr(Box::new(detail)),
                    pr_cache: after.pr_cache,
                    ..self
                })
                &&& after.pr_cache@.dom() == self.pr_cache@.dom().insert(detail.number)
                &&& detail.same(after.pr_cache@[detail.number])
                &&& forall|n: u64|
                    n != detail.number && self.pr_cache@.contains_key(n) ==> (
                    #[trigger] after.pr_cache@[n]) == self.pr_cache@[n]
            },
            GhBgMessage::PrDetail(Err(e)) => after == (GitHubState {
                detail: GhDetailContent::Error(e),
                ..self
            }),
        }
    }

    /// The state after the messages were taken in, one after the other.
    pub open spec fn drained(self, messages: Seq<GhBgMessage>, after: GitHubState) -> bool
        decreases messages.len(),
    {
        if messages.len() == 0 {
            after == self
        } else {
            exists|mid: GitHubState|
                #![trigger mid.message_applied(messages.last(), after)]
                self.drained(messages.drop_last(), mid) && mid.message_applied(
                    messages.last(),
                    after,
                )
        }
    }

    /// Taking in one more message extends what was taken in before.
    pub proof fn lemma_drained_step(
        self,
        messages: Seq<GhBgMessage>,
        mid: GitHubState,
        after: GitHubState,
    )
        requires
            messages.len() > 0,
            self.drained(messages.drop_last(), mid),
            mid.message_applied(messages.last(), after),
        ensures
            self.drained(messages, after),
    {
    }

    /// Whether one of the messages is a list of issues that arrived.
    pub open spec fn brings_issues(messages: Seq<GhBgMessage>) -> bool {
        exists|i: int| 0 <= i < messages.len() && #[trigger] is_issue_list(messages[i])
    }

    /// Takes in one message from background work.
    pub fn apply_bg_message(&mut self, message: GhBgMessage)
        ensures
            old(self).message_applied(message, *final(self)),
    {
        match message {
            GhBgMessage::AuthStatus(result) => match result {
                Ok(_) => {
                    self.gh_available = Some(true);
                    self.gh_error = None;
                },
                Err(e) => {
                    self.gh_available = Some(false);
                    self.gh_error = Some(e);
                    self.issues_loading = false;
                    self.prs_loading = false;
                },
            },
            GhBgMessage::IssueList(result) => {
                self.issues_loading = false;
                match result {
                    Ok(issues) => {
                        self.issues = issues;
                    },
                    Err(e) => {
                        if self.gh_error.is_none() {
                            self.gh_error = Some(e);
                        }
                    },
                }
            },
            GhBgMessage::PrList(result) => {
                self.prs_loading = false;
                match result {
                    Ok(prs) => {
                        self.prs = prs;
                    },
                    Err(e) => {
                        if self.gh_error.is_none() {
                            self.gh_error = Some(e);
                        }
                    },
                }
            },
            GhBgMessage::IssueDetail(result) => match result {
                Ok(detail) => {
                    self.issue_cache.insert(detail.number, detail.clone());
                    self.detail = GhDetailContent::Issue(Box::new(detail));
                },
                Err(e) => {
                    self.detail = GhDetailContent::Error(e);
                },
            },
            GhBgMessage::PrDetail(result) => match result {
                Ok(detail) => {
                    self.pr_cache.insert(detail.number, detail.clone());
                    self.detail = GhDetailContent::Pr(Box::new(detail));
                },
                Err(e) => {
                    self.detail = GhDetailContent::Error(e);
                },
            },
        }
    }

    /// Takes in the messages that background work has sent, in order. When
    /// a list of issues arrived among them, the detail of the selected
    /// issue is shown afterwards.
    pub fn drain_bg_messages(&mut self, messages: Vec<GhBgMessage>) -> (request: Request)
        ensures
            exists|taken: GitHubState|
                {
                    &&& #[trigger] old(self).drained(messages@, taken)
                    &&& if Self::brings_issues(messages@) {
                        taken.selected_issue_shown(*final(self), request.deep_view())
                    } else {
                        *final(self) == taken && request is Nothing
                    }
                },
    {
        let mut issue_list_arrived = false;
        let mut rest = messages;
        let ghost total = rest@;
        let ghost mut done: int = 0;
        assert(total.take(0) =~= Seq::<GhBgMessage>::empty());
        while rest.len() > 0
            invariant
                total == messages@,
                0 <= done <= total.len(),
                rest@ == total.subrange(done, total.len() as int),
                old(self).drained(total.take(done), *self),
                issue_list_arrived == Self::brings_issues(total.take(done)),
            decreases rest.len(),
        {
            let ghost before = *self;
            let ghost prefix = total.take(done);
            let message = rest.remove(0);
            assert(message == total[done]);
            let arrived = match &message {
                GhBgMessage::IssueList(Ok(_)) => true,
                _ => false,
            };
            assert(arrived == is_issue_list(message));
            self.apply_bg_message(message);
            proof {
                let next = total.take(done + 1);
                assert(next.drop_last() =~= prefix);
                assert(next.last() == total[done]);
                assert(old(self).drained(next.drop_last(), before));
                if Self::brings_issues(prefix) {
                    let i = choose|i: int| 0 <= i < prefix.len() && #[trigger] is_issue_list(prefix[i]);
                    assert(is_issue_list(next[i]));
                }
                if arrived {
                    assert(is_issue_list(next[done]));
                }
                old(self).lemma_drained_step(next, before, *self);
                if Self::brings_issues(next) && !arrived {
                    let i = choose|i: int| 0 <= i < next.len() && #[trigger] is_issue_list(next[i]);
                    assert(is_issue_list(prefix[i]));
                }
                done = done + 1;
            }
            if arrived {
                issue_list_arrived = true;
            }
        }
        assert(total.take(done) =~= total);
        if issue_list_arrived {
            self.load_selected_issue_detail()
        } else {
            Request::Nothing
        }
    }
}

impl GitHubState {
    /// The selected index of a list of `total` items after a movement key:
    /// `j` and `k` step, `g` goes to the first item, `G` to the last.
    pub open spec fn moved_selection(selected: usize, total: int, key: KeyEvent) -> usize {
        match key.code {
            KeyCode::Down => if selected + 1 < total {
                (selected + 1) as usize
            } else {
                selected
            },
            KeyCode::Up => if selected > 0 {
                (selected - 1) as usize
            } else {
                selected
            },
            KeyCode::Char(c) => if c == 'j' {
                if selected + 1 < total {
                    (selected + 1) as usize
                } else {
                    selected
                }
            } else if c == 'k' {
                if selected > 0 {
                    (selected - 1) as usize
                } else {
                    selected
                }
            } else if c == 'g' {
                0
            } else if c == 'G' && total > 0 {
                (total - 1) as usize
            } else {
                selected
            },
            _ => selected,
        }
    }

    /// Whether the key moves the selection of a list, or asks to load the
    /// selected item again (`g` always does).
    pub open spec fn reloads(selected: usize, total: int, key: KeyEvent) -> bool {
        Self::moved_selection(selected, total, key) != selected || key.code == KeyCode::Char('g')
            || (key.code == KeyCode::Char('G') && total > 0)
    }

    fn move_selection(selected: usize, total: usize, key: KeyEvent) -> (r: (usize, bool))
        ensures
            r.0 == Self::moved_selection(selected, total as int, key),
            r.1 == Self::reloads(selected, total as int, key),
    {
        let down = match key.code {
            KeyCode::Down => true,
            KeyCode::Char(c) => c == 'j',
            _ => false,
        };
        let up = match key.code {
            KeyCode::Up => true,
            KeyCode::Char(c) => c == 'k',
            _ => false,
        };
        if down {
            if total > 0 && selected < total - 1 {
                (selected + 1, true)
            } else {
                (selected, false)
            }
        } else if up {
            if selected > 0 {
                (selected - 1, true)
            } else {
                (selected, false)
            }
        } else {
            match key.code {
                KeyCode::Char(c) => {
                    if c == 'g' {
                        (0, true)
                    } else if c == 'G' && total > 0 {
                        (total - 1, true)
                    } else {
                        (selected, false)
                    }
                },
                _ => (selected, false),
            }
        }
    }

    /// The issue with this number is shown: a copy from the cache where it
    /// is there, otherwise as loading, with a request to fetch it. The
    /// detail panes start afresh.
    pub open spec fn issue_shown(self, number: u64, after: GitHubState, request: RequestView) -> bool {
        &&& (GitHubState { detail: self.detail, ..after }) == self.with_panes_reset()
        &&& if self.issue_cache@.contains_key(number) {
            &&& request is Nothing
            &&& after.detail matches GhDetailContent::Issue(shown)
            &&& self.issue_cache@[number].same(*shown)
        } else {
            request == RequestView::GhLoadIssue(number) && after.detail
                == (GhDetailContent::Loading { kind: GhDetailKind::Issue, number })
        }
    }

    /// The pull request with this number is shown.
    pub open spec fn pr_shown(self, number: u64, after: GitHubState, request: RequestView) -> bool {
        &&& (GitHubState { detail: self.detail, ..after }) == self.with_panes_reset()
        &&& if self.pr_cache@.contains_key(number) {
            &&& request is Nothing
            &&& after.detail matches GhDetailContent::Pr(shown)
            &&& self.pr_cache@[number].same(*shown)
        } else {
            request == RequestView::GhLoadPr(number) && after.detail
                == (GhDetailContent::Loading { kind: GhDetailKind::Pr, number })
        }
    }

    /// The selected issue is shown, if one is selected.
    pub open spec fn selected_issue_shown(self, after: GitHubState, request: RequestView) -> bool {
        if self.issue_selected_idx < self.issues.len() {
            self.issue_shown(self.issues[self.issue_selected_idx as int].number, after, request)
        } else {
            after == self && request is Nothing
        }
    }

    /// The selected pull request is shown, if one is selected.
    pub open spec fn selected_pr_shown(self, after: GitHubState, request: RequestView) -> bool {
        if self.pr_selected_idx < self.prs.len() {
            self.pr_shown(self.prs[self.pr_selected_idx as int].number, after, request)
        } else {
            after == self && request is Nothing
        }
    }

    /// A key in the list of issues: the movement keys move the selection
    /// and show the selected issue; `l` and Tab go to the pull requests and
    /// show the selected one; `i` and Enter open the detail pane on the
    /// selected issue; `o` asks to open it in the browser.
    #[verifier::opaque]
    pub open spec fn issue_key_post(self, key: KeyEvent, after: GitHubState, request: RequestView) -> bool {
        let total = self.issues.len() as int;
        let selected = self.issue_selected_idx;
        if Self::reloads(selected, total, key) {
            (GitHubState {
                issue_selected_idx: Self::moved_selection(selected, total, key),
                ..self
            }).selected_issue_shown(after, request)
        } else if key.code == KeyCode::Tab || key.code == KeyCode::Char('l') {
            (GitHubState { focused_pane: GhFocusedPane::PrList, ..self }).selected_pr_shown(
                after,
                request,
            )
        } else if key.code == KeyCode::Enter || key.code == KeyCode::Char('i') {
            if total > 0 {
                (GitHubState {
                    previous_pane: GhFocusedPane::IssueList,
                    focused_pane: GhFocusedPane::Detail,
                    ..self
                }).selected_issue_shown(after, request)
            } else {
                after == self && request is Nothing
            }
        } else if key.code == KeyCode::Char('o') && selected < total {
            after == self && request == RequestView::OpenIssue(self.issues[selected as int].number)
        } else {
            after == self && request is Nothing
        }
    }

    /// A key in the list of pull requests: the movement keys move the
    /// selection and show the selected pull request; `h` and BackTab go to
    /// the issues and show the selected one; `i` and Enter open the detail
    /// pane on the selected pull request; `o` asks to open it in the browser.
    #[verifier::opaque]
    pub open spec fn pr_key_post(self, key: KeyEvent, after: GitHubState, request: RequestView) -> bool {
        let total = self.prs.len() as int;
        let selected = self.pr_selected_idx;
        if Self::reloads(selected, total, key) {
            (GitHubState {
                pr_selected_idx: Self::moved_selection(selected, total, key),
                ..self
            }).selected_pr_shown(after, request)
        } else if key.code == KeyCode::BackTab || key.code == KeyCode::Char('h') {
            (GitHubState { focused_pane: GhFocusedPane::IssueList, ..self }).selected_issue_shown(
                after,
                request,
            )
        } else if key.code == KeyCode::Enter || key.code == KeyCode::Char('i') {
            if total > 0 {
                (GitHubState {
                    previous_pane: GhFocusedPane::PrList,
                    focused_pane: GhFocusedPane::Detail,
                    ..self
                }).selected_pr_shown(after, request)
            } else {
                after == self && request is Nothing
            }
        } else if key.code == KeyCode::Char('o') && selected < total {
            after == self && request == RequestView::OpenPr(self.prs[selected as int].number)
        } else {
            after == self && request is Nothing
        }
    }

    /// A key in the detail pane: Escape gives the focus back; `h` makes
    /// the body the active pane, `l` the comments; `o` asks to open what is
    /// shown in the browser; every other key scrolls the active pane as
    /// `detail_scroll_after` says.
    #[verifier::opaque]
    pub open spec fn detail_key_post(self, key: KeyEvent, after: GitHubState, request: RequestView) -> bool {
        if key.code == KeyCode::Esc {
            request is Nothing && after == (GitHubState { focused_pane: self.previous_pane, ..self })
        } else if key.code == KeyCode::Char('h') {
            request is Nothing && after == (GitHubState { detail_pane: GhDetailPane::Body, ..self })
        } else if key.code == KeyCode::Char('l') {
            request is Nothing && after == (GitHubState {
                detail_pane: GhDetailPane::Comments,
                ..self
            })
        } else if key.code == KeyCode::Char('o') {
            after == self && request == (match self.detail {
                GhDetailContent::Issue(issue) => RequestView::OpenIssue(issue.number),
                GhDetailContent::Pr(pr) => RequestView::OpenPr(pr.number),
                _ => RequestView::Nothing,
            })
        } else {
            request is Nothing && after == self.with_active_scroll(self.detail_scroll_after(key))
        }
    }

    /// A key in the pane that has the focus.
    pub open spec fn key_post(self, key: KeyEvent, after: GitHubState, request: RequestView) -> bool {
        match self.focused_pane {
            GhFocusedPane::IssueList => self.issue_key_post(key, after, request),
            GhFocusedPane::PrList => self.pr_key_post(key, after, request),
            GhFocusedPane::Detail => self.detail_key_post(key, after, request),
        }
    }

    /// Fetching the lists again: both lists count as loading, the error
    /// and the cached details are forgotten.
    pub open spec fn refreshed(self, after: GitHubState) -> bool {
        &&& after.issues_loading
        &&& after.prs_loading
        &&& after.gh_error is None
        &&& after.issue_cache@.len() == 0
        &&& after.pr_cache@.len() == 0
        &&& after == (GitHubState {
            issues_loading: true,
            prs_loading: true,
            gh_error: None,
            issue_cache: after.issue_cache,
            pr_cache: after.pr_cache,
            ..self
        })
    }

    /// Handles a key in the list of issues: the movement keys move the
    /// selection and show the selected issue; `l` and Tab go to the pull
    /// requests; `i` and Enter open the detail pane; `o` asks to open the
    /// issue in the browser.
    pub fn handle_issue_list_key(&mut self, key: KeyEvent) -> (request: Request)
        ensures
            old(self).issue_key_post(key, *final(self), request.deep_view()),
    {
        reveal(GitHubState::issue_key_post);
        let (next, reload) = Self::move_selection(self.issue_selected_idx, self.issues.len(), key);
        if reload {
            self.issue_selected_idx = next;
            return self.load_selected_issue_detail();
        }
        let to_prs = match key.code {
            KeyCode::Tab => true,
            KeyCode::Char(c) => c == 'l',
            _ => false,
        };
        let open = match key.code {
            KeyCode::Enter => true,
            KeyCode::Char(c) => c == 'i',
            _ => false,
        };
        if to_prs {
            self.focused_pane = GhFocusedPane::PrList;
            self.load_selected_pr_detail()
        } else if open {
            if self.issues.len() > 0 {
                self.previous_pane = GhFocusedPane::IssueList;
                self.focused_pane = GhFocusedPane::Detail;
                self.load_selected_issue_detail()
            } else {
                Request::Nothing
            }
        } else {
            match key.code {
                KeyCode::Char(c) => {
                    if c == 'o' && self.issue_selected_idx < self.issues.len() {
                        Request::OpenIssue(self.issues[self.issue_selected_idx].number)
                    } else {
                        Request::Nothing
                    }
                },
                _ => Request::Nothing,
            }
        }
    }

    /// Handles a key in the list of pull requests: the movement keys move
    /// the selection and show the selected pull request; `h` and BackTab go
    /// to the issues; `i` and Enter open the detail pane; `o` asks to open
    /// the pull request in the browser.
    pub fn handle_pr_list_key(&mut self, key: KeyEvent) -> (request: Request)
        ensures
            old(self).pr_key_post(key, *final(self), request.deep_view()),
    {
        reveal(GitHubState::pr_key_post);
        let (next, reload) = Self::move_selection(self.pr_selected_idx, self.prs.len(), key);
        if reload {
            self.pr_selected_idx = next;
            return self.load_selected_pr_detail();
        }
        let to_issues = match key.code {
            KeyCode::BackTab => true,
            KeyCode::Char(c) => c == 'h',
            _ => false,
        };
        let open = match key.code {
            KeyCode::Enter => true,
            KeyCode::Char(c) => c == 'i',
            _ => false,
        };
        if to_issues {
            self.focused_pane = GhFocusedPane::IssueList;
            self.load_selected_issue_detail()
        } else if open {
            if self.prs.len() > 0 {
                self.previous_pane = GhFocusedPane::PrList;
                self.focused_pane = GhFocusedPane::Detail;
                self.load_selected_pr_detail()
            } else {
                Request::Nothing
            }
        } else {
            match key.code {
                KeyCode::Char(c) => {
                    if c == 'o' && self.pr_selected_idx < self.prs.len() {
                        Request::OpenPr(self.prs[self.pr_selected_idx].number)
                    } else {
                        Request::Nothing
                    }
                },
                _ => Request::Nothing,
            }
        }
    }

    /// The scroll position of the active detail pane after a key.
    pub open spec fn detail_scroll_after(self, key: KeyEvent) -> u16 {
        let scroll = self.active_scroll();
        let half = if self.detail_view_height / 2 >= 1 {
            self.detail_view_height / 2
        } else {
            1
        };
        let plus = |by: int|
            if scroll + by <= u16::MAX {
                (scroll + by) as u16
            } else {
                u16::MAX
            };
        let minus = |by: int|
            if scroll >= by {
                (scroll - by) as u16
            } else {
                0u16
            };
        match key.code {
            KeyCode::Down => plus(1),
            KeyCode::Up => minus(1),
            KeyCode::Char(c) => if c == 'j' {
                plus(1)
            } else if c == 'k' {
                minus(1)
            } else if c == 'd' && key.ctrl {
                plus(half as int)
            } else if c == 'u' && key.ctrl {
                minus(half as int)
            } else if c == 'g' {
                0
            } else if c == 'G' {
                32767
            } else {
                scroll
            },
            _ => scroll,
        }
    }

    /// Handles a key in the detail pane: the scroll keys scroll the active
    /// pane; `h` makes the body the active pane, `l` the comments; `o` asks
    /// to open what is shown in the browser; Escape gives the focus back.
    pub fn handle_detail_key(&mut self, key: KeyEvent) -> (request: Request)
        ensures
            old(self).detail_key_post(key, *final(self), request.deep_view()),
    {
        reveal(GitHubState::detail_key_post);
        let scroll = match self.detail_pane {
            GhDetailPane::Body => self.detail_scroll_body,
            GhDetailPane::Status => self.detail_scroll_status,
            GhDetailPane::Comments => self.detail_scroll_comments,
        };
        let half = if self.detail_view_height / 2 >= 1 {
            self.detail_view_height / 2
        } else {
            1
        };
        let next = match key.code {
            KeyCode::Esc => {
                self.focused_pane = self.previous_pane;
                return Request::Nothing;
            },
            KeyCode::Down => scroll.saturating_add(1),
            KeyCode::Up => scroll.saturating_sub(1),
            KeyCode::Char(c) => {
                if c == 'j' {
                    scroll.saturating_add(1)
                } else if c == 'k' {
                    scroll.saturating_sub(1)
                } else if c == 'd' && key.ctrl {
                    scroll.saturating_add(half)
                } else if c == 'u' && key.ctrl {
                    scroll.saturating_sub(half)
                } else if c == 'g' {
                    0
                } else if c == 'G' {
                    u16::MAX / 2
                } else if c == 'h' {
                    self.detail_pane = GhDetailPane::Body;
                    return Request::Nothing;
                } else if c == 'l' {
                    self.detail_pane = GhDetailPane::Comments;
                    return Request::Nothing;
                } else if c == 'o' {
                    return match &self.detail {
                        GhDetailContent::Issue(issue) => Request::OpenIssue(issue.number),
                        GhDetailContent::Pr(pr) => Request::OpenPr(pr.number),
                        _ => Request::Nothing,
                    };
                } else {
                    scroll
                }
            },
            _ => scroll,
        };
        let target = self.active_detail_scroll_mut();
        *target = next;
        Request::Nothing
    }

    /// Handles a key in the pane that has the focus.
    pub fn handle_key(&mut self, key: KeyEvent) -> (request: Request)
        ensures
            old(self).key_post(key, *final(self), request.deep_view()),
    {
        match self.focused_pane {
            GhFocusedPane::IssueList => self.handle_issue_list_key(key),
            GhFocusedPane::PrList => self.handle_pr_list_key(key),
            GhFocusedPane::Detail => self.handle_detail_key(key),
        }
    }
}

} // verus!
