//! What the engine asks its shell to do. The engine decides; the shell does
//! the outside work and reports the result back through the method named
//! with each request.

use vstd::prelude::*;

verus! {

/// What the shell is asked to do.
#[derive(Debug, PartialEq, Eq)]
pub enum Request {
    /// The key was consumed; nothing to do.
    Nothing,
    /// Open the selected file in the external editor.
    OpenEditor,
    /// Put the text on the clipboard; report with `App::clipboard_done`.
    Copy(String),
    /// Read the diff again against `App::diff_base_ref`; report with
    /// `App::refresh_diff`.
    RefreshDiff,
    /// Read the diff, the branches and the reflog again.
    Reload,
    /// List the branches again; report with `App::load_branches`.
    ReloadBranches,
    /// List the branches and read the diff again.
    ReloadBranchesAndDiff,
    /// List the commits of the ref; report with `App::set_branch_log`.
    LoadBranchLog(String),
    /// Switch to the branch; report with `App::branch_switched`.
    SwitchBranch(String),
    /// Delete the branch; report with `App::branch_deleted`.
    DeleteBranch(String),
    /// Check `gh` and fetch the lists of issues and pull requests.
    GhInitialize,
    /// Fetch the lists of issues and pull requests again.
    GhRefresh,
    /// Fetch the issue with this number.
    GhLoadIssue(u64),
    /// Fetch the pull request with this number.
    GhLoadPr(u64),
    /// Open the issue in the browser; report with `App::browser_opened`.
    OpenIssue(u64),
    /// Open the pull request in the browser; report with `App::browser_opened`.
    OpenPr(u64),
}

/// A request as plain values.
pub enum RequestView {
    Nothing,
    OpenEditor,
    Copy(Seq<char>),
    RefreshDiff,
    Reload,
    ReloadBranches,
    ReloadBranchesAndDiff,
    LoadBranchLog(Seq<char>),
    SwitchBranch(Seq<char>),
    DeleteBranch(Seq<char>),
    GhInitialize,
    GhRefresh,
    GhLoadIssue(u64),
    GhLoadPr(u64),
    OpenIssue(u64),
    OpenPr(u64),
}

impl DeepView for Request {
    type V = RequestView;

    open spec fn deep_view(&self) -> RequestView {
        match self {
            Request::Nothing => RequestView::Nothing,
            Request::OpenEditor => RequestView::OpenEditor,
            Request::Copy(t) => RequestView::Copy(t@),
            Request::RefreshDiff => RequestView::RefreshDiff,
            Request::Reload => RequestView::Reload,
            Request::ReloadBranches => RequestView::ReloadBranches,
            Request::ReloadBranchesAndDiff => RequestView::ReloadBranchesAndDiff,
            Request::LoadBranchLog(r) => RequestView::LoadBranchLog(r@),
            Request::SwitchBranch(b) => RequestView::SwitchBranch(b@),
            Request::DeleteBranch(b) => RequestView::DeleteBranch(b@),
            Request::GhInitialize => RequestView::GhInitialize,
            Request::GhRefresh => RequestView::GhRefresh,
            Request::GhLoadIssue(n) => RequestView::GhLoadIssue(*n),
            Request::GhLoadPr(n) => RequestView::GhLoadPr(*n),
            Request::OpenIssue(n) => RequestView::OpenIssue(*n),
            Request::OpenPr(n) => RequestView::OpenPr(*n),
        }
    }
}

} // verus!
