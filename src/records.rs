//! The long-lived master records: one per issue, one per project.
use vstd::prelude::*;

use crate::text::text_eq;

verus! {

/// Where an issue stands in the review of its bounty.
#[derive(Clone, Copy, Debug, PartialEq, Eq, Structural)]
pub enum ReviewStatus {
    Queue,
    Approve,
    Decline,
}

/// The master record of one issue, keyed by its tracker URL.
#[derive(Debug)]
pub struct IssueRecord {
    pub issue_id: String,
    pub project_id: String,
    pub title: String,
    pub description: String,
    pub creator: String,
    pub main_language: String,
    pub repo_stars: u32,
    pub budget: Option<u32>,
    /// In the order of assignment.
    pub assignees: Option<Vec<String>>,
    pub linked_pr: Option<String>,
    pub tracker_status: Option<String>,
    pub review_status: ReviewStatus,
    pub budget_approved: bool,
    pub date_assigned: Option<u64>,
    pub date_approved: Option<u64>,
    pub date_declined: Option<u64>,
    pub date_budget_approved: Option<u64>,
    pub last_comment_time: Option<u64>,
    pub last_comment_author: String,
    pub last_comment_body: String,
}

/// What an [`IssueRecord`] holds, with texts as character sequences.
pub struct IssueView {
    pub issue_id: Seq<char>,
    pub project_id: Seq<char>,
    pub title: Seq<char>,
    pub description: Seq<char>,
    pub creator: Seq<char>,
    pub main_language: Seq<char>,
    pub repo_stars: u32,
    pub budget: Option<u32>,
    pub assignees: Option<Seq<Seq<char>>>,
    pub linked_pr: Option<Seq<char>>,
    pub tracker_status: Option<Seq<char>>,
    pub review_status: ReviewStatus,
    pub budget_approved: bool,
    pub date_assigned: Option<u64>,
    pub date_approved: Option<u64>,
    pub date_declined: Option<u64>,
    pub date_budget_approved: Option<u64>,
    pub last_comment_time: Option<u64>,
    pub last_comment_author: Seq<char>,
    pub last_comment_body: Seq<char>,
}

pub open spec fn opt_text(o: Option<String>) -> Option<Seq<char>> {
    match o {
        Some(s) => Some(s@),
        None => None,
    }
}

pub open spec fn texts(v: Seq<String>) -> Seq<Seq<char>> {
    v.map_values(|s: String| s@)
}

pub open spec fn opt_texts(o: Option<Vec<String>>) -> Option<Seq<Seq<char>>> {
    match o {
        Some(v) => Some(texts(v@)),
        None => None,
    }
}

impl View for IssueRecord {
    type V = IssueView;

    open spec fn view(&self) -> IssueView {
        IssueView {
            issue_id: self.issue_id@,
            project_id: self.project_id@,
            title: self.title@,
            description: self.description@,
            creator: self.creator@,
            main_language: self.main_language@,
            repo_stars: self.repo_stars,
            budget: self.budget,
            assignees: opt_texts(self.assignees),
            linked_pr: opt_text(self.linked_pr),
            tracker_status: opt_text(self.tracker_status),
            review_status: self.review_status,
            budget_approved: self.budget_approved,
            date_assigned: self.date_assigned,
            date_approved: self.date_approved,
            date_declined: self.date_declined,
            date_budget_approved: self.date_budget_approved,
            last_comment_time: self.last_comment_time,
            last_comment_author: self.last_comment_author@,
            last_comment_body: self.last_comment_body@,
        }
    }
}

/// The views of a sequence of issue records.
pub open spec fn issue_views(rs: Seq<IssueRecord>) -> Seq<IssueView> {
    rs.map_values(|r: IssueRecord| r@)
}

/// Whether assignees are recorded. No list and an empty list both mean "no
/// assignees" (the null of the records): only a list that names someone
/// counts, so an empty list never replaces or blocks a real one.
pub open spec fn is_assigned(a: Option<Seq<Seq<char>>>) -> bool {
    a is Some && a->0.len() > 0
}

/// Whether the assignees name at least one person.
pub open spec fn names_someone(a: Option<Seq<Seq<char>>>) -> bool {
    a is Some && a->0.len() > 0
}

/// The record invariant: an approved budget is a set budget under an approved review.
pub open spec fn issue_wf(r: IssueView) -> bool {
    r.budget_approved ==> (r.budget is Some && r.review_status == ReviewStatus::Approve)
}

/// Every record of the collection keeps the invariant.
pub open spec fn all_issues_wf(rs: Seq<IssueView>) -> bool {
    forall|i: int| 0 <= i < rs.len() ==> issue_wf(#[trigger] rs[i])
}

/// No two records share an issue id.
pub open spec fn ids_unique(rs: Seq<IssueView>) -> bool {
    forall|i: int, j: int|
        0 <= i < rs.len() && 0 <= j < rs.len() && i != j ==> #[trigger] rs[i].issue_id
            != #[trigger] rs[j].issue_id
}

/// Whether some record has the id.
pub open spec fn has_issue(rs: Seq<IssueView>, id: Seq<char>) -> bool {
    exists|i: int| 0 <= i < rs.len() && #[trigger] rs[i].issue_id == id
}

/// The first position at or after `i` whose record has the id.
pub open spec fn issue_pos_from(rs: Seq<IssueView>, id: Seq<char>, i: int) -> Option<int>
    decreases rs.len() - i,
{
    if i < 0 || i >= rs.len() {
        None
    } else if rs[i].issue_id == id {
        Some(i)
    } else {
        issue_pos_from(rs, id, i + 1)
    }
}

/// The first position whose record has the id.
pub open spec fn issue_pos(rs: Seq<IssueView>, id: Seq<char>) -> Option<int> {
    issue_pos_from(rs, id, 0)
}

pub proof fn lemma_issue_pos_from(rs: Seq<IssueView>, id: Seq<char>, i: int)
    requires
        0 <= i <= rs.len(),
    ensures
        issue_pos_from(rs, id, i) matches Some(p) ==> i <= p < rs.len() && rs[p].issue_id == id
            && forall|k: int| i <= k < p ==> rs[k].issue_id != id,
        issue_pos_from(rs, id, i) is None ==> forall|k: int| i <= k < rs.len() ==> rs[k].issue_id
            != id,
    decreases rs.len() - i,
{
    if i < rs.len() {
        lemma_issue_pos_from(rs, id, i + 1);
    }
}

/// What `issue_pos` says, spelled out.
pub proof fn lemma_issue_pos(rs: Seq<IssueView>, id: Seq<char>)
    ensures
        issue_pos(rs, id) matches Some(p) ==> 0 <= p < rs.len() && rs[p].issue_id == id && forall|
            k: int,
        | 0 <= k < p ==> rs[k].issue_id != id,
        issue_pos(rs, id) is None <==> !has_issue(rs, id),
{
    lemma_issue_pos_from(rs, id, 0);
}

/// The position of the record with the id, if any.
pub fn find_issue(rs: &Vec<IssueRecord>, id: &str) -> (r: Option<usize>)
    ensures
        r matches Some(p) ==> issue_pos(issue_views(rs@), id@) == Some(p as int),
        r is None ==> issue_pos(issue_views(rs@), id@) is None,
{
    let ghost vs = issue_views(rs@);
    let mut i: usize = 0;
    while i < rs.len()
        invariant
            i <= rs.len(),
            vs == issue_views(rs@),
            issue_pos(vs, id@) == issue_pos_from(vs, id@, i as int),
        decreases rs.len() - i,
    {
        if text_eq(rs[i].issue_id.as_str(), id) {
            return Some(i);
        }
        i = i + 1;
    }
    None
}

/// The master record of one repository, keyed by its URL.
#[derive(Debug)]
pub struct ProjectRecord {
    pub project_id: String,
    pub logo: String,
    pub main_language: String,
    pub repo_stars: u32,
    pub description: String,
    pub issues_list: Vec<String>,
    pub participants_list: Vec<String>,
    pub total_budget_allocated: u128,
    pub total_budget_used: u128,
}

/// What a [`ProjectRecord`] holds, with texts as character sequences.
pub struct ProjectView {
    pub project_id: Seq<char>,
    pub logo: Seq<char>,
    pub main_language: Seq<char>,
    pub repo_stars: u32,
    pub description: Seq<char>,
    pub issues_list: Seq<Seq<char>>,
    pub participants_list: Seq<Seq<char>>,
    pub total_budget_allocated: u128,
    pub total_budget_used: u128,
}

impl View for ProjectRecord {
    type V = ProjectView;

    open spec fn view(&self) -> ProjectView {
        ProjectView {
            project_id: self.project_id@,
            logo: self.logo@,
            main_language: self.main_language@,
            repo_stars: self.repo_stars,
            description: self.description@,
            issues_list: texts(self.issues_list@),
            participants_list: texts(self.participants_list@),
            total_budget_allocated: self.total_budget_allocated,
            total_budget_used: self.total_budget_used,
        }
    }
}

/// The views of a sequence of project records.
pub open spec fn project_views(ps: Seq<ProjectRecord>) -> Seq<ProjectView> {
    ps.map_values(|p: ProjectRecord| p@)
}

/// A copy of a list of names.
pub fn copy_names(v: &Vec<String>) -> (r: Vec<String>)
    ensures
        r@ == v@,
{
    let mut r: Vec<String> = Vec::new();
    let mut i: usize = 0;
    while i < v.len()
        invariant
            i <= v.len(),
            r@ == v@.take(i as int),
        decreases v.len() - i,
    {
        r.push(v[i].clone());
        proof {
            assert(v@.take(i as int + 1) =~= v@.take(i as int).push(v@[i as int]));
        }
        i = i + 1;
    }
    proof {
        assert(v@.take(v@.len() as int) =~= v@);
    }
    r
}

/// A copy of an optional text.
pub fn copy_opt_text(o: &Option<String>) -> (r: Option<String>)
    ensures
        r == *o,
{
    match o {
        Some(s) => Some(s.clone()),
        None => None,
    }
}

} // verus!
