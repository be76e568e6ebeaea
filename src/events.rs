//! Raw activity pulled from the tracker, staged until it is merged into the
//! master records. Times are seconds since the Unix epoch.
use vstd::prelude::*;

verus! {

/// An issue that was opened (the open event of the staging area).
#[derive(Debug)]
pub struct IssueOpen {
    pub node_id: String,
    pub issue_title: String,
    /// The URL of the issue.
    pub issue_id: String,
    pub issue_creator: String,
    /// The budget named in the description, or 0.
    pub issue_budget: u32,
    /// The description, cut to a bounded length.
    pub issue_description: String,
    /// The URL of the repository.
    pub project_id: String,
}

/// A comment on an issue, with the issue's assignees at the time (the
/// assigned-or-commented event of the staging area).
#[derive(Debug)]
pub struct IssueComment {
    pub issue_id: String,
    pub assignees: Option<Vec<String>>,
    pub comment_creator: String,
    pub comment_date: u64,
    pub comment_body: String,
}

/// An issue that was closed (the closed event of the staging area).
#[derive(Debug)]
pub struct IssueClosed {
    pub issue_id: String,
    pub issue_assignees: Option<Vec<String>>,
    /// The pull request that closed the issue.
    pub issue_linked_pr: Option<String>,
}

/// A merged pull request (the pull-request event of the staging area).
#[derive(Debug)]
pub struct OuterPull {
    /// The URL of the pull request.
    pub pull_id: String,
    pub pull_title: String,
    pub pull_author: Option<String>,
    pub project_id: String,
    pub merged_at: u64,
    /// The issues that the pull request closes.
    pub connected_issues: Vec<String>,
}

/// The first assignment of an issue.
#[derive(Debug)]
pub struct IssueAssigned {
    pub issue_id: String,
    pub issue_assignee: String,
    pub date_assigned: u64,
}

/// An issue that changed, with the node id under which the tracker knows it.
#[derive(Debug)]
pub struct IssueUpdated {
    pub issue_id: String,
    pub node_id: String,
}

/// An issue with its comments, as one read of the tracker gives it.
#[derive(Debug)]
pub struct IssueComments {
    pub issue_id: String,
    pub issue_title: String,
    pub issue_body: Option<String>,
    pub issue_assignees: Option<Vec<String>>,
    pub issue_comments: Option<Vec<String>>,
}

/// What the tracker says of a repository.
#[derive(Debug)]
pub struct RepoData {
    pub project_id: String,
    pub repo_description: String,
    pub repo_readme: String,
    pub repo_stars: u32,
    pub main_language: String,
    pub project_logo: String,
}

/// The staged events of one run, by kind.
#[derive(Debug)]
pub struct StagedBatch {
    pub opens: Vec<IssueOpen>,
    pub comments: Vec<IssueComment>,
    pub assigns: Vec<IssueAssigned>,
    pub closeds: Vec<IssueClosed>,
    pub pulls: Vec<OuterPull>,
}

} // verus!
