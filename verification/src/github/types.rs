//! Issues and pull requests as the `gh` collaborator reports them.

use vstd::prelude::*;

verus! {

/// A copy of a text that may be absent.
fn copy_of_text(text: &Option<String>) -> (r: Option<String>)
    ensures
        r == *text,
{
    match text {
        Some(t) => Some(t.clone()),
        None => None,
    }
}

/// A copy of an author that may be absent.
fn copy_of_author(author: &Option<GhAuthor>) -> (r: Option<GhAuthor>)
    ensures
        r == *author,
{
    match author {
        Some(a) => Some(a.clone()),
        None => None,
    }
}

/// A copy of a list of labels.
fn copy_of_labels(items: &Vec<GhLabel>) -> (r: Vec<GhLabel>)
    ensures
        r@ == items@,
{
    let mut r: Vec<GhLabel> = Vec::new();
    let mut i: usize = 0;
    while i < items.len()
        invariant
            i <= items.len(),
            r@ == items@.take(i as int),
        decreases items.len() - i,
    {
        r.push(items[i].clone());
        assert(items@.take(i + 1) =~= items@.take(i as int).push(items@[i as int]));
        i += 1;
    }
    assert(items@.take(i as int) =~= items@);
    r
}

/// A copy of a list of comments.
fn copy_of_comments(items: &Vec<GhComment>) -> (r: Vec<GhComment>)
    ensures
        r@ == items@,
{
    let mut r: Vec<GhComment> = Vec::new();
    let mut i: usize = 0;
    while i < items.len()
        invariant
            i <= items.len(),
            r@ == items@.take(i as int),
        decreases items.len() - i,
    {
        r.push(items[i].clone());
        assert(items@.take(i + 1) =~= items@.take(i as int).push(items@[i as int]));
        i += 1;
    }
    assert(items@.take(i as int) =~= items@);
    r
}

/// A copy of a list of reviews.
fn copy_of_reviews(items: &Vec<GhReview>) -> (r: Vec<GhReview>)
    ensures
        r@ == items@,
{
    let mut r: Vec<GhReview> = Vec::new();
    let mut i: usize = 0;
    while i < items.len()
        invariant
            i <= items.len(),
            r@ == items@.take(i as int),
        decreases items.len() - i,
    {
        r.push(items[i].clone());
        assert(items@.take(i + 1) =~= items@.take(i as int).push(items@[i as int]));
        i += 1;
    }
    assert(items@.take(i as int) =~= items@);
    r
}

/// A copy of a list of checks.
fn copy_of_checks(items: &Vec<GhStatusCheck>) -> (r: Vec<GhStatusCheck>)
    ensures
        r@ == items@,
{
    let mut r: Vec<GhStatusCheck> = Vec::new();
    let mut i: usize = 0;
    while i < items.len()
        invariant
            i <= items.len(),
            r@ == items@.take(i as int),
        decreases items.len() - i,
    {
        r.push(items[i].clone());
        assert(items@.take(i + 1) =~= items@.take(i as int).push(items@[i as int]));
        i += 1;
    }
    assert(items@.take(i as int) =~= items@);
    r
}

/// Whether two lists of checks that may be absent hold the same checks.
pub open spec fn same_checks(a: Option<Vec<GhStatusCheck>>, b: Option<Vec<GhStatusCheck>>) -> bool {
    match (a, b) {
        (Some(x), Some(y)) => x@ == y@,
        (None, None) => true,
        _ => false,
    }
}

/// Who wrote something.
#[derive(Debug)]
pub struct GhAuthor {
    pub login: String,
}

impl Clone for GhAuthor {
    fn clone(&self) -> (r: Self)
        ensures
            r == *self,
    {
        GhAuthor {
            login: self.login.clone(),
        }
    }
}

/// A label: its name and its colour as six hexadecimal digits.
#[derive(Debug)]
pub struct GhLabel {
    pub name: String,
    pub color: String,
}

impl Clone for GhLabel {
    fn clone(&self) -> (r: Self)
        ensures
            r == *self,
    {
        GhLabel {
            name: self.name.clone(),
            color: self.color.clone(),
        }
    }
}

/// A comment on an issue or a pull request.
#[derive(Debug)]
pub struct GhComment {
    pub author: Option<GhAuthor>,
    pub body: String,
    pub created_at: String,
}

impl Clone for GhComment {
    fn clone(&self) -> (r: Self)
        ensures
            r == *self,
    {
        GhComment {
            author: copy_of_author(&self.author),
            body: self.body.clone(),
            created_at: self.created_at.clone(),
        }
    }
}

/// A review of a pull request.
#[derive(Debug)]
pub struct GhReview {
    pub author: Option<GhAuthor>,
    pub body: String,
    pub state: String,
    pub submitted_at: Option<String>,
}

impl Clone for GhReview {
    fn clone(&self) -> (r: Self)
        ensures
            r == *self,
    {
        GhReview {
            author: copy_of_author(&self.author),
            body: self.body.clone(),
            state: self.state.clone(),
            submitted_at: copy_of_text(&self.submitted_at),
        }
    }
}

/// One check of a pull request.
#[derive(Debug)]
pub struct GhStatusCheck {
    pub name: String,
    pub status: String,
    pub conclusion: Option<String>,
    pub workflow_name: Option<String>,
    pub started_at: Option<String>,
    pub completed_at: Option<String>,
}

impl Clone for GhStatusCheck {
    fn clone(&self) -> (r: Self)
        ensures
            r == *self,
    {
        GhStatusCheck {
            name: self.name.clone(),
            status: self.status.clone(),
            conclusion: copy_of_text(&self.conclusion),
            workflow_name: copy_of_text(&self.workflow_name),
            started_at: copy_of_text(&self.started_at),
            completed_at: copy_of_text(&self.completed_at),
        }
    }
}

/// An issue as the list shows it.
#[derive(Debug)]
pub struct GhIssueListItem {
    pub number: u64,
    pub title: String,
    pub state: String,
    pub author: Option<GhAuthor>,
    pub labels: Vec<GhLabel>,
    pub created_at: String,
}

impl GhIssueListItem {
    /// Whether another value holds the same, list for list and field for
    /// field.
    pub open spec fn same(self, other: Self) -> bool {
        &&& self.number == other.number
        &&& self.title == other.title
        &&& self.state == other.state
        &&& self.author == other.author
        &&& self.labels@ == other.labels@
        &&& self.created_at == other.created_at
    }
}

impl Clone for GhIssueListItem {
    fn clone(&self) -> (r: Self)
        ensures
            self.same(r),
    {
        GhIssueListItem {
            number: self.number,
            title: self.title.clone(),
            state: self.state.clone(),
            author: copy_of_author(&self.author),
            labels: copy_of_labels(&self.labels),
            created_at: self.created_at.clone(),
        }
    }
}

/// An issue with its body and comments.
#[derive(Debug)]
pub struct GhIssueDetail {
    pub number: u64,
    pub title: String,
    pub state: String,
    pub author: Option<GhAuthor>,
    pub body: String,
    pub comments: Vec<GhComment>,
    pub labels: Vec<GhLabel>,
    pub created_at: String,
}

impl GhIssueDetail {
    /// Whether another value holds the same, list for list and field for
    /// field.
    pub open spec fn same(self, other: Self) -> bool {
        &&& self.number == other.number
        &&& self.title == other.title
        &&& self.state == other.state
        &&& self.author == other.author
        &&& self.body == other.body
        &&& self.comments@ == other.comments@
        &&& self.labels@ == other.labels@
        &&& self.created_at == other.created_at
    }
}

impl Clone for GhIssueDetail {
    fn clone(&self) -> (r: Self)
        ensures
            self.same(r),
    {
        GhIssueDetail {
            number: self.number,
            title: self.title.clone(),
            state: self.state.clone(),
            author: copy_of_author(&self.author),
            body: self.body.clone(),
            comments: copy_of_comments(&self.comments),
            labels: copy_of_labels(&self.labels),
            created_at: self.created_at.clone(),
        }
    }
}

/// A pull request as the list shows it.
#[derive(Debug)]
pub struct GhPrListItem {
    pub number: u64,
    pub title: String,
    pub state: String,
    pub author: Option<GhAuthor>,
    pub labels: Vec<GhLabel>,
    pub head_ref_name: String,
    pub created_at: String,
    pub review_decision: Option<String>,
    pub is_draft: bool,
}

impl GhPrListItem {
    /// Whether another value holds the same, list for list and field for
    /// field.
    pub open spec fn same(self, other: Self) -> bool {
        &&& self.number == other.number
        &&& self.title == other.title
        &&& self.state == other.state
        &&& self.author == other.author
        &&& self.labels@ == other.labels@
        &&& self.head_ref_name == other.head_ref_name
        &&& self.created_at == other.created_at
        &&& self.review_decision == other.review_decision
        &&& self.is_draft == other.is_draft
    }
}

impl Clone for GhPrListItem {
    fn clone(&self) -> (r: Self)
        ensures
            self.same(r),
    {
        GhPrListItem {
            number: self.number,
            title: self.title.clone(),
            state: self.state.clone(),
            author: copy_of_author(&self.author),
            labels: copy_of_labels(&self.labels),
            head_ref_name: self.head_ref_name.clone(),
            created_at: self.created_at.clone(),
            review_decision: copy_of_text(&self.review_decision),
            is_draft: self.is_draft,
        }
    }
}

/// A pull request with its body, comments, reviews and checks.
#[derive(Debug)]
pub struct GhPrDetail {
    pub number: u64,
    pub title: String,
    pub state: String,
    pub author: Option<GhAuthor>,
    pub body: String,
    pub comments: Vec<GhComment>,
    pub reviews: Vec<GhReview>,
    pub labels: Vec<GhLabel>,
    pub created_at: String,
    pub review_decision: Option<String>,
    pub status_check_rollup: Option<Vec<GhStatusCheck>>,
    pub additions: u64,
    pub deletions: u64,
    pub changed_files: u64,
    pub head_ref_name: String,
}

impl GhPrDetail {
    /// Whether another value holds the same, list for list and field for
    /// field.
    pub open spec fn same(self, other: Self) -> bool {
        &&& self.number == other.number
        &&& self.title == other.title
        &&& self.state == other.state
        &&& self.author == other.author
        &&& self.body == other.body
        &&& self.comments@ == other.comments@
        &&& self.reviews@ == other.reviews@
        &&& self.labels@ == other.labels@
        &&& self.created_at == other.created_at
        &&& self.review_decision == other.review_decision
        &&& same_checks(self.status_check_rollup, other.status_check_rollup)
        &&& self.additions == other.additions
        &&& self.deletions == other.deletions
        &&& self.changed_files == other.changed_files
        &&& self.head_ref_name == other.head_ref_name
    }
}

impl Clone for GhPrDetail {
    fn clone(&self) -> (r: Self)
        ensures
            self.same(r),
    {
        GhPrDetail {
            number: self.number,
            title: self.title.clone(),
            state: self.state.clone(),
            author: copy_of_author(&self.author),
            body: self.body.clone(),
            comments: copy_of_comments(&self.comments),
            reviews: copy_of_reviews(&self.reviews),
            labels: copy_of_labels(&self.labels),
            created_at: self.created_at.clone(),
            review_decision: copy_of_text(&self.review_decision),
            status_check_rollup: match &self.status_check_rollup {
                Some(checks) => Some(copy_of_checks(checks)),
                None => None,
            },
            additions: self.additions,
            deletions: self.deletions,
            changed_files: self.changed_files,
            head_ref_name: self.head_ref_name.clone(),
        }
    }
}

} // verus!
