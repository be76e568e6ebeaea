use gosim_project::aggregate::{
    aggregate, count_budget_by_status, count_issues_by_status, sync_project_metadata,
};
use gosim_project::events::{
    IssueAssigned, IssueClosed, IssueComment, IssueOpen, OuterPull, StagedBatch,
};
use gosim_project::merge::consolidate;
use gosim_project::records::{IssueRecord, ProjectRecord, ReviewStatus};
use gosim_project::review::{
    assign_issue_budget_in_db, conclude_issues_batch_in_db, decline_issues_batch_in_db, conclude_issue_in_db,
    decline_issue_in_db, ReviewError,
};
use gosim_project::staging::{
    purge_merged, put_assigned, put_closed, put_comment, put_open, put_pull,
};

fn open(id: &str, project: &str, budget: u32) -> IssueOpen {
    IssueOpen {
        node_id: format!("node-{id}"),
        issue_title: format!("title of {id}"),
        issue_id: id.to_string(),
        issue_creator: "carol".to_string(),
        issue_budget: budget,
        issue_description: "something is broken".to_string(),
        project_id: project.to_string(),
    }
}

fn closed(id: &str, assignees: Option<Vec<&str>>, pr: Option<&str>) -> IssueClosed {
    IssueClosed {
        issue_id: id.to_string(),
        issue_assignees: assignees.map(|v| v.into_iter().map(String::from).collect()),
        issue_linked_pr: pr.map(String::from),
    }
}

fn comment(id: &str, assignees: Option<Vec<&str>>, who: &str, at: u64, body: &str) -> IssueComment {
    IssueComment {
        issue_id: id.to_string(),
        assignees: assignees.map(|v| v.into_iter().map(String::from).collect()),
        comment_creator: who.to_string(),
        comment_date: at,
        comment_body: body.to_string(),
    }
}

fn pull(id: &str, author: Option<&str>, issues: Vec<&str>) -> OuterPull {
    OuterPull {
        pull_id: id.to_string(),
        pull_title: "fix".to_string(),
        pull_author: author.map(String::from),
        project_id: "P1".to_string(),
        merged_at: 100,
        connected_issues: issues.into_iter().map(String::from).collect(),
    }
}

fn batch() -> StagedBatch {
    StagedBatch {
        opens: Vec::new(),
        comments: Vec::new(),
        assigns: Vec::new(),
        closeds: Vec::new(),
        pulls: Vec::new(),
    }
}

fn summary(r: &IssueRecord) -> String {
    format!("{:?}", r)
}

#[test]
fn open_close_approve_aggregate_decline_example() {
    let mut b = batch();
    b.opens.push(open("I1", "P1", 0));
    b.closeds.push(closed("I1", Some(vec!["alice"]), None));
    let mut issues: Vec<IssueRecord> = Vec::new();
    consolidate(&mut issues, &b);
    assert_eq!(issues.len(), 1);
    assert_eq!(issues[0].issue_id, "I1");
    assert_eq!(issues[0].assignees, Some(vec!["alice".to_string()]));
    assert_eq!(issues[0].review_status, ReviewStatus::Queue);
    assert_eq!(issues[0].budget, None);

    assert_eq!(assign_issue_budget_in_db(&mut issues, "I1", 150, 1000), Ok(()));
    assert_eq!(issues[0].budget, Some(150));
    assert_eq!(issues[0].review_status, ReviewStatus::Approve);
    assert_eq!(issues[0].date_approved, Some(1000));

    let mut projects: Vec<ProjectRecord> = Vec::new();
    aggregate(&issues, &mut projects);
    assert_eq!(projects.len(), 1);
    assert_eq!(projects[0].project_id, "P1");
    assert_eq!(projects[0].total_budget_allocated, 150);
    assert_eq!(projects[0].total_budget_used, 0);

    assert_eq!(conclude_issue_in_db(&mut issues, "I1", 2000), Ok(()));
    assert!(issues[0].budget_approved);
    assert_eq!(decline_issue_in_db(&mut issues, "I1", 3000), Err(ReviewError::Rejected));
    assert_eq!(issues[0].review_status, ReviewStatus::Approve);
    assert_eq!(issues[0].budget, Some(150));
    assert_eq!(issues[0].date_declined, None);
}

#[test]
fn consolidating_twice_changes_nothing() {
    let mut b = batch();
    b.opens.push(open("I1", "P1", 0));
    b.opens.push(open("I2", "P1", 0));
    b.opens.push(open("I1", "P9", 0));
    b.comments.push(comment("I1", Some(vec!["bob"]), "bob", 50, "I take it"));
    b.comments.push(comment("I1", Some(vec!["dave"]), "dave", 40, "stale"));
    b.comments.push(comment("I2", None, "erin", 60, "question"));
    b.closeds.push(closed("I1", Some(vec!["x"]), Some("PR-1")));
    b.closeds.push(closed("I1", Some(vec!["y"]), Some("PR-2")));
    b.pulls.push(pull("PR-3", Some("frank"), vec!["I2", "I7"]));
    let mut once: Vec<IssueRecord> = Vec::new();
    consolidate(&mut once, &b);
    let first: Vec<String> = once.iter().map(summary).collect();
    consolidate(&mut once, &b);
    let second: Vec<String> = once.iter().map(summary).collect();
    assert_eq!(first, second);
    assert_eq!(once.len(), 2);
    // the first open event of an issue wins
    assert_eq!(once[0].project_id, "P1");
    // the closing event is authoritative; the last one wins
    assert_eq!(once[0].assignees, Some(vec!["y".to_string()]));
    // the linked pull request is set once
    assert_eq!(once[0].linked_pr, Some("PR-1".to_string()));
    // the newest comment is the last comment
    assert_eq!(once[0].last_comment_time, Some(50));
    assert_eq!(once[0].last_comment_author, "bob");
    assert_eq!(once[0].date_assigned, Some(50));
    // the pull request fills what is unset
    assert_eq!(once[1].linked_pr, Some("PR-3".to_string()));
    assert_eq!(once[1].assignees, Some(vec!["frank".to_string()]));
    assert_eq!(once[1].last_comment_author, "erin");
}

#[test]
fn stale_comment_does_not_reassign() {
    let mut b = batch();
    b.opens.push(open("I1", "P1", 0));
    b.comments.push(comment("I1", Some(vec!["bob"]), "bob", 50, "mine"));
    let mut rs: Vec<IssueRecord> = Vec::new();
    consolidate(&mut rs, &b);
    let mut later = batch();
    later.comments.push(comment("I1", Some(vec!["mallory"]), "mallory", 10, "old"));
    consolidate(&mut rs, &later);
    assert_eq!(rs[0].assignees, Some(vec!["bob".to_string()]));
    assert_eq!(rs[0].last_comment_body, "mine");
    let mut newer = batch();
    newer.comments.push(comment("I1", Some(vec!["zoe"]), "zoe", 90, "handover"));
    consolidate(&mut rs, &newer);
    assert_eq!(rs[0].assignees, Some(vec!["zoe".to_string()]));
    assert_eq!(rs[0].last_comment_body, "handover");
    assert_eq!(rs[0].date_assigned, Some(50));
}

#[test]
fn malformed_open_is_skipped_and_kept() {
    let mut b = batch();
    b.opens.push(open("", "P1", 0));
    b.opens.push(open("I3", "", 0));
    b.opens.push(open("I4", "P2", 0));
    b.closeds.push(closed("I5", Some(vec!["a"]), None));
    let mut rs: Vec<IssueRecord> = Vec::new();
    consolidate(&mut rs, &b);
    assert_eq!(rs.len(), 1);
    assert_eq!(rs[0].issue_id, "I4");
    purge_merged(&mut b, &rs);
    let left: Vec<&str> = b.opens.iter().map(|o| o.issue_id.as_str()).collect();
    assert_eq!(left, vec!["", "I3"]);
    assert_eq!(b.closeds.len(), 1);
}

#[test]
fn purge_keeps_pulls_with_unknown_issues() {
    let mut b = batch();
    b.opens.push(open("I1", "P1", 0));
    b.pulls.push(pull("PR-1", None, vec!["I1"]));
    b.pulls.push(pull("PR-2", None, vec!["I1", "I9"]));
    b.comments.push(comment("I1", None, "a", 1, "x"));
    let mut rs: Vec<IssueRecord> = Vec::new();
    consolidate(&mut rs, &b);
    purge_merged(&mut b, &rs);
    assert!(b.opens.is_empty());
    assert!(b.comments.is_empty());
    let left: Vec<&str> = b.pulls.iter().map(|p| p.pull_id.as_str()).collect();
    assert_eq!(left, vec!["PR-2"]);
}

#[test]
fn aggregation_recomputes_totals() {
    let mut b = batch();
    b.opens.push(open("I1", "P1", 0));
    b.opens.push(open("I2", "P1", 0));
    b.opens.push(open("I3", "P2", 0));
    let mut rs: Vec<IssueRecord> = Vec::new();
    consolidate(&mut rs, &b);
    assign_issue_budget_in_db(&mut rs, "I1", 100, 1).unwrap();
    assign_issue_budget_in_db(&mut rs, "I2", 40, 1).unwrap();
    assign_issue_budget_in_db(&mut rs, "I3", 7, 1).unwrap();
    conclude_issue_in_db(&mut rs, "I2", 2).unwrap();
    let mut ps: Vec<ProjectRecord> = Vec::new();
    aggregate(&rs, &mut ps);
    aggregate(&rs, &mut ps);
    assert_eq!(ps.len(), 2);
    assert_eq!(ps[0].total_budget_allocated, 140);
    assert_eq!(ps[0].total_budget_used, 40);
    assert_eq!(ps[0].issues_list, vec!["I1".to_string(), "I2".to_string()]);
    assert_eq!(ps[1].total_budget_allocated, 7);
    assert_eq!(ps[1].total_budget_used, 0);
    // a decline clears the budget, and the next aggregation follows it
    decline_issue_in_db(&mut rs, "I1", 3).unwrap();
    aggregate(&rs, &mut ps);
    assert_eq!(ps[0].total_budget_allocated, 40);
    let stats = count_issues_by_status(&rs);
    assert_eq!((stats.total, stats.queued, stats.approved, stats.declined), (3, 0, 2, 1));
    let running = count_budget_by_status(50_000, &ps).unwrap();
    assert_eq!(running.allocated, 47);
    assert_eq!(running.balance, 50_000 - 47);
}

#[test]
fn participants_are_distinct_assignees() {
    let mut b = batch();
    b.opens.push(open("I1", "P1", 0));
    b.opens.push(open("I2", "P1", 0));
    b.closeds.push(closed("I1", Some(vec!["ann", "ben"]), None));
    b.closeds.push(closed("I2", Some(vec!["ben", "cat"]), None));
    let mut rs: Vec<IssueRecord> = Vec::new();
    consolidate(&mut rs, &b);
    let mut ps: Vec<ProjectRecord> = Vec::new();
    aggregate(&rs, &mut ps);
    assert_eq!(ps[0].participants_list, vec!["ann", "ben", "cat"]);
}

#[test]
fn review_rules() {
    let mut b = batch();
    b.opens.push(open("I1", "P1", 0));
    b.opens.push(open("I2", "P1", 0));
    let mut rs: Vec<IssueRecord> = Vec::new();
    consolidate(&mut rs, &b);
    assert_eq!(assign_issue_budget_in_db(&mut rs, "nope", 10, 1), Err(ReviewError::NotFound));
    // no budget yet: nothing to conclude
    assert_eq!(conclude_issue_in_db(&mut rs, "I1", 1), Err(ReviewError::Rejected));
    assert!(!rs[0].budget_approved);
    // a declined issue stays declined
    assert_eq!(decline_issue_in_db(&mut rs, "I2", 5), Ok(()));
    assert_eq!(assign_issue_budget_in_db(&mut rs, "I2", 10, 6), Err(ReviewError::Rejected));
    assert_eq!(rs[1].review_status, ReviewStatus::Decline);
    assert_eq!(rs[1].budget, None);
    assert_eq!(rs[1].date_declined, Some(5));
    assert_eq!(decline_issue_in_db(&mut rs, "I2", 9), Ok(()));
    assert_eq!(rs[1].date_declined, Some(5));
    // re-approving keeps the first approval date
    assign_issue_budget_in_db(&mut rs, "I1", 10, 7).unwrap();
    assign_issue_budget_in_db(&mut rs, "I1", 20, 8).unwrap();
    assert_eq!(rs[0].budget, Some(20));
    assert_eq!(rs[0].date_approved, Some(7));
    conclude_issue_in_db(&mut rs, "I1", 9).unwrap();
    assert_eq!(assign_issue_budget_in_db(&mut rs, "I1", 30, 10), Err(ReviewError::Rejected));
    let failed = decline_issues_batch_in_db(
        &mut rs,
        &vec!["I1".to_string(), "I2".to_string(), "I9".to_string()],
        11,
    );
    assert_eq!(failed, vec!["I1".to_string(), "I9".to_string()]);
}

#[test]
fn staging_keeps_set_fields() {
    let mut opens: Vec<IssueOpen> = Vec::new();
    put_open(&mut opens, open("I1", "P1", 150));
    let mut thin = open("I1", "", 0);
    thin.issue_title = String::new();
    put_open(&mut opens, thin);
    assert_eq!(opens.len(), 1);
    assert_eq!(opens[0].project_id, "P1");
    assert_eq!(opens[0].issue_budget, 150);
    assert_eq!(opens[0].issue_title, "title of I1");

    let mut closeds: Vec<IssueClosed> = Vec::new();
    put_closed(&mut closeds, closed("I1", Some(vec!["a"]), Some("PR-1")));
    put_closed(&mut closeds, closed("I1", None, None));
    put_closed(&mut closeds, closed("I1", Some(vec![]), Some("PR-2")));
    assert_eq!(closeds.len(), 1);
    // an empty list means no assignees and does not replace a list
    assert_eq!(closeds[0].issue_assignees, Some(vec!["a".to_string()]));
    assert_eq!(closeds[0].issue_linked_pr, Some("PR-2".to_string()));

    let mut comments: Vec<IssueComment> = Vec::new();
    put_comment(&mut comments, comment("I1", Some(vec!["a"]), "a", 5, "hi"));
    put_comment(&mut comments, comment("I1", None, "", 5, ""));
    put_comment(&mut comments, comment("I1", None, "b", 6, "later"));
    assert_eq!(comments.len(), 2);
    assert_eq!(comments[0].comment_body, "hi");
    assert_eq!(comments[0].assignees, Some(vec!["a".to_string()]));

    let mut pulls: Vec<OuterPull> = Vec::new();
    put_pull(&mut pulls, pull("PR-1", Some("x"), vec!["I1"]));
    put_pull(&mut pulls, pull("PR-1", None, vec![]));
    assert_eq!(pulls.len(), 1);
    assert_eq!(pulls[0].pull_author, Some("x".to_string()));
    assert_eq!(pulls[0].connected_issues, vec!["I1".to_string()]);
}

#[test]
fn issues_take_repository_metadata() {
    let mut b = batch();
    b.opens.push(open("I1", "P1", 0));
    b.opens.push(open("I2", "P2", 0));
    let mut rs: Vec<IssueRecord> = Vec::new();
    consolidate(&mut rs, &b);
    let mut ps: Vec<ProjectRecord> = Vec::new();
    aggregate(&rs, &mut ps);
    ps[0].main_language = "Rust".to_string();
    ps[0].repo_stars = 12;
    ps.remove(1);
    sync_project_metadata(&mut rs, &ps);
    assert_eq!(rs[0].main_language, "Rust");
    assert_eq!(rs[0].repo_stars, 12);
    assert_eq!(rs[1].main_language, "");
    assert_eq!(rs[1].repo_stars, 0);
}

#[test]
fn batch_conclusion_reports_failures() {
    let mut b = batch();
    b.opens.push(open("I1", "P1", 0));
    b.opens.push(open("I2", "P1", 0));
    let mut rs: Vec<IssueRecord> = Vec::new();
    consolidate(&mut rs, &b);
    assign_issue_budget_in_db(&mut rs, "I1", 60, 1).unwrap();
    let failed = conclude_issues_batch_in_db(
        &mut rs,
        &vec!["I1".to_string(), "I2".to_string(), "I1".to_string(), "I3".to_string()],
        5,
    );
    assert_eq!(failed, vec!["I2".to_string(), "I3".to_string()]);
    assert!(rs[0].budget_approved);
    assert_eq!(rs[0].date_budget_approved, Some(5));
    assert!(!rs[1].budget_approved);
}

#[test]
fn empty_assignee_list_means_none() {
    let mut b = batch();
    b.opens.push(open("I1", "P1", 0));
    b.opens.push(open("I2", "P1", 0));
    let mut rs: Vec<IssueRecord> = Vec::new();
    consolidate(&mut rs, &b);
    rs[0].assignees = Some(vec!["ann".to_string()]);
    rs[0].last_comment_time = Some(50);
    // a newer comment with an empty list does not wipe the assignees
    let mut newer = batch();
    newer.comments.push(comment("I1", Some(vec![]), "bob", 60, "ping"));
    consolidate(&mut rs, &newer);
    assert_eq!(rs[0].assignees, Some(vec!["ann".to_string()]));
    assert_eq!(rs[0].last_comment_body, "ping");
    // nor does a closing event with an empty list
    let mut close = batch();
    close.closeds.push(closed("I1", Some(vec![]), None));
    consolidate(&mut rs, &close);
    assert_eq!(rs[0].assignees, Some(vec!["ann".to_string()]));
    // a record with an empty list has no assignees: an older comment and a pull
    // request may fill it
    rs[1].assignees = Some(Vec::new());
    rs[1].last_comment_time = Some(50);
    let mut stale = batch();
    stale.comments.push(comment("I2", Some(vec!["bob"]), "bob", 40, "old"));
    consolidate(&mut rs, &stale);
    assert_eq!(rs[1].assignees, Some(vec!["bob".to_string()]));
    assert_eq!(rs[1].date_assigned, Some(40));
    rs[1].assignees = Some(Vec::new());
    let mut pr = batch();
    pr.pulls.push(pull("PR-9", Some("zed"), vec!["I2"]));
    consolidate(&mut rs, &pr);
    assert_eq!(rs[1].assignees, Some(vec!["zed".to_string()]));
    assert_eq!(rs[1].linked_pr, Some("PR-9".to_string()));
}

#[test]
fn restaged_comment_with_empty_list_keeps_assignees() {
    let mut comments: Vec<IssueComment> = Vec::new();
    put_comment(&mut comments, comment("I1", Some(vec!["a", "b"]), "a", 5, "hi"));
    put_comment(&mut comments, comment("I1", Some(vec![]), "a", 5, "hi again"));
    put_comment(&mut comments, comment("I1", None, "", 5, ""));
    assert_eq!(comments.len(), 1);
    assert_eq!(comments[0].assignees, Some(vec!["a".to_string(), "b".to_string()]));
    assert_eq!(comments[0].comment_body, "hi again");
}

fn assigned(id: &str, who: &str, at: u64) -> IssueAssigned {
    IssueAssigned { issue_id: id.to_string(), issue_assignee: who.to_string(), date_assigned: at }
}

#[test]
fn first_assignment_wins() {
    let mut b = batch();
    b.opens.push(open("I1", "P1", 0));
    b.opens.push(open("I2", "P1", 0));
    b.assigns.push(assigned("I1", "amy", 30));
    b.assigns.push(assigned("I1", "ben", 40));
    b.assigns.push(assigned("I2", "", 40));
    let mut rs: Vec<IssueRecord> = Vec::new();
    consolidate(&mut rs, &b);
    assert_eq!(rs[0].assignees, Some(vec!["amy".to_string()]));
    assert_eq!(rs[0].date_assigned, Some(30));
    assert_eq!(rs[1].assignees, None);
    let first: Vec<String> = rs.iter().map(summary).collect();
    consolidate(&mut rs, &b);
    let second: Vec<String> = rs.iter().map(summary).collect();
    assert_eq!(first, second);
    // a closing event still overrides the assignment
    let mut c = batch();
    c.closeds.push(closed("I1", Some(vec!["cid"]), None));
    consolidate(&mut rs, &c);
    assert_eq!(rs[0].assignees, Some(vec!["cid".to_string()]));
    purge_merged(&mut b, &rs);
    assert!(b.assigns.is_empty());
}

#[test]
fn staged_assignment_keeps_set_fields() {
    let mut rows: Vec<IssueAssigned> = Vec::new();
    put_assigned(&mut rows, assigned("I1", "amy", 30));
    put_assigned(&mut rows, assigned("I1", "", 0));
    assert_eq!(rows.len(), 1);
    assert_eq!(rows[0].issue_assignee, "amy");
    assert_eq!(rows[0].date_assigned, 30);
    put_assigned(&mut rows, assigned("I2", "ben", 5));
    assert_eq!(rows.len(), 2);
}
