use gosim_project::events::RepoData;
use gosim_project::records::ProjectRecord;
use gosim_project::run::{
    after_failure, pool_token_list, rand_token, release, try_acquire, Paginator, RetryDecision,
    RunLease, NO_TOKEN,
};
use gosim_project::tracker::{
    assigned_event, closed_event, comment_event, extract_budget, fill_project_w_repo_data,
    first_budget_in, open_event, project_description, project_id_of, projects_lacking_metadata,
    pull_event, repo_search_query,
};
use gosim_project::window::{
    compute_window, hour_floor, inner_query_1_hour, next_boundary, query_descriptors, timestamp_of,
    utc_text_of,
    QueryKind, RunConfig, RunWindow, MAX_TIMESTAMP,
};

#[test]
fn queries_per_kind() {
    let d = "2024-06-17";
    let (a, b) = ("2024-06-17T10:00:00Z", "2024-06-17T11:00:00Z");
    assert_eq!(
        inner_query_1_hour(d, a, b, "gosim-bounty", "gosim-bounty-accepted", true, false, true),
        "label:gosim-bounty is:issue is:open no:assignee created:2024-06-17T10:00:00Z..2024-06-17T11:00:00Z -label:spam -label:invalid"
    );
    assert_eq!(
        inner_query_1_hour(d, a, b, "gosim-bounty", "gosim-bounty-accepted", false, true, false),
        "label:gosim-bounty is:issue is:open created:>2024-06-17 updated:2024-06-17T10:00:00Z..2024-06-17T11:00:00Z -label:spam -label:invalid"
    );
    assert_eq!(
        inner_query_1_hour(d, a, b, "gosim-bounty", "gosim-bounty-accepted", true, false, false),
        "label:gosim-bounty is:issue is:closed created:>2024-06-17 closed:2024-06-17T10:00:00Z..2024-06-17T11:00:00Z -label:spam -label:invalid"
    );
    assert_eq!(
        inner_query_1_hour(d, a, b, "gosim-bounty", "gosim-bounty-accepted", false, false, false),
        "label:gosim-bounty-accepted is:pr is:merged merged:2024-06-17T10:00:00Z..2024-06-17T11:00:00Z review:approved -label:spam -label:invalid"
    );
}

fn cfg() -> RunConfig {
    RunConfig {
        start_date: "2024-06-17".to_string(),
        issue_label: "gosim-bounty".to_string(),
        pr_label: "gosim-bounty-accepted".to_string(),
    }
}

#[test]
fn window_and_descriptors() {
    let now = 1718622000 + 1234;
    assert_eq!(hour_floor(now), 1718622000);
    let w = compute_window(1718618400, hour_floor(now));
    assert_eq!(w, RunWindow { start: 1718618400, end: 1718622000 });
    let qs = query_descriptors(&cfg(), w);
    let kinds: Vec<QueryKind> = qs.iter().map(|q| q.kind).collect();
    assert_eq!(kinds, vec![QueryKind::Opened, QueryKind::Updated, QueryKind::Closed, QueryKind::PullRequests]);
    assert_eq!(
        qs[0].query,
        "label:gosim-bounty is:issue is:open no:assignee created:2024-06-17T10:00:00Z..2024-06-17T11:00:00Z -label:spam -label:invalid"
    );
    // a boundary at or after now gives an empty window and no queries
    let skew = compute_window(1718622000, 1718618400);
    assert!(skew.is_empty());
    assert_eq!(skew, RunWindow { start: 1718618400, end: 1718618400 });
    assert!(query_descriptors(&cfg(), skew).is_empty());
    assert!(query_descriptors(&cfg(), RunWindow { start: 0, end: MAX_TIMESTAMP + 1 }).is_empty());
}

#[test]
fn times_read_and_written() {
    assert_eq!(utc_text_of(0).as_deref(), Some("1970-01-01T00:00:00Z"));
    assert_eq!(utc_text_of(MAX_TIMESTAMP).as_deref(), Some("9999-12-31T23:59:59Z"));
    assert_eq!(utc_text_of(MAX_TIMESTAMP + 1), None);
    assert_eq!(timestamp_of("2024-06-17T10:00:00Z"), Some(1718618400));
    assert_eq!(timestamp_of("2024-06-17T12:00:00+02:00"), Some(1718618400));
    assert_eq!(timestamp_of("1969-12-31T23:59:59Z"), None);
    assert_eq!(timestamp_of("yesterday"), None);
}

#[test]
fn budget_mentions() {
    assert_eq!(extract_budget("Budget: 150 USD"), 150);
    assert_eq!(extract_budget("budget 5, later BUDGET:\t\n 75"), 75);
    assert_eq!(extract_budget("bUdGeT:  1234"), 123);
    assert_eq!(extract_budget("budget 05 then budget 20"), 20);
    assert_eq!(extract_budget("budget: 009"), 0);
    assert_eq!(extract_budget("no money here"), 0);
    assert_eq!(extract_budget(""), 0);
    assert_eq!(extract_budget("budget:: 50"), 0);
    // a third digit outside ASCII is still a digit of the mention, which then
    // does not read as a number
    assert_eq!(extract_budget("budget 12\u{661}"), 0);
    assert_eq!(extract_budget("budget 12\u{661} and budget: 40"), 40);
}

#[test]
fn repository_of_urls() {
    assert_eq!(project_id_of("https://github.com/o/r/issues/7").as_deref(), Some("https://github.com/o/r"));
    assert_eq!(project_id_of("https://github.com/o/r/pull/12").as_deref(), Some("https://github.com/o/r"));
    assert_eq!(project_id_of("a/b").as_deref(), None);
    assert_eq!(project_id_of("/a/b").as_deref(), Some(""));
}

#[test]
fn items_become_events() {
    let body = format!("Budget: 300\n{}", "z".repeat(9000));
    let o = open_event(
        "N1".to_string(),
        "Title".to_string(),
        "https://github.com/o/r/issues/7".to_string(),
        Some(body),
        None,
    );
    assert_eq!(o.issue_description.chars().count(), 8000);
    assert_eq!(o.issue_budget, 300);
    assert_eq!(o.project_id, "https://github.com/o/r");
    assert_eq!(o.issue_creator, "");

    let c = closed_event("u".to_string(), Some(Vec::new()), Some("pr".to_string()));
    assert_eq!(c.issue_assignees, None);
    assert_eq!(c.issue_linked_pr, Some("pr".to_string()));

    let p = pull_event(
        "https://github.com/o/r/pull/9".to_string(),
        "fix".to_string(),
        Some("dev".to_string()),
        "2024-06-17T10:00:00Z",
        vec!["https://github.com/o/r/issues/7".to_string()],
    );
    assert_eq!(p.project_id, "https://github.com/o/r");
    assert_eq!(p.merged_at, 1718618400);
    let q = pull_event("x".to_string(), String::new(), None, "", Vec::new());
    assert_eq!(q.merged_at, 0);
    assert_eq!(q.project_id, "");

    assert!(comment_event("u".to_string(), None, "a".to_string(), "nope", "b".to_string()).is_none());
    let bare = comment_event(
        "u".to_string(),
        Some(Vec::new()),
        "a".to_string(),
        "2024-06-17T10:00:00Z",
        "b".to_string(),
    )
    .unwrap();
    assert_eq!(bare.assignees, None);
    let e = comment_event("u".to_string(), None, "a".to_string(), "2024-06-17T10:00:00Z", "b".to_string())
        .unwrap();
    assert_eq!(e.comment_date, 1718618400);
}

#[test]
fn repository_search_and_metadata() {
    let ids = vec!["https://github.com/a/b".to_string(), "https://github.com/c/d".to_string(), "other".to_string()];
    assert_eq!(repo_search_query(&ids), "repo:a/b repo:c/d other fork:true");
    assert_eq!(repo_search_query(&Vec::new()), " fork:true");

    let mut repo = RepoData {
        project_id: "https://github.com/a/b".to_string(),
        repo_description: String::new(),
        repo_readme: "r".repeat(1500),
        repo_stars: 42,
        main_language: "Go".to_string(),
        project_logo: "logo".to_string(),
    };
    assert_eq!(project_description(&repo).chars().count(), 1000);
    repo.repo_readme = String::new();
    assert_eq!(project_description(&repo), "No description available");
    repo.repo_description = "desc".to_string();
    assert_eq!(project_description(&repo), "desc");

    let mut ps: Vec<ProjectRecord> = Vec::new();
    fill_project_w_repo_data(&mut ps, &repo);
    repo.repo_stars = 43;
    fill_project_w_repo_data(&mut ps, &repo);
    assert_eq!(ps.len(), 1);
    assert_eq!(ps[0].repo_stars, 43);
    assert_eq!(ps[0].main_language, "Go");
    assert_eq!(ps[0].description, "desc");
}

#[test]
fn paging_stops_and_resumes() {
    let mut p = Paginator::new(3, None);
    assert_eq!(p.next_request(), Some(None));
    p.on_page(true, Some("c1".to_string()));
    assert_eq!(p.next_request(), Some(Some("c1".to_string())));
    assert!(!p.failed);
    p.on_error();
    assert!(p.failed);
    assert_eq!(p.next_request(), None);
    // the next run resumes from the last good cursor
    let mut q = Paginator::new(3, p.cursor.clone());
    assert_eq!(q.next_request(), Some(Some("c1".to_string())));
    q.on_page(true, Some("c2".to_string()));
    q.on_page(true, Some("c3".to_string()));
    q.on_page(true, Some("c4".to_string()));
    assert_eq!(q.pages, 3);
    assert_eq!(q.next_request(), None);
    let mut r = Paginator::new(10, None);
    r.on_page(false, Some("c9".to_string()));
    assert_eq!(r.next_request(), None);
    assert_eq!(r.cursor, None);
    assert_eq!(Paginator::new(0, None).next_request(), None);
}

#[test]
fn lease_keeps_runs_apart() {
    let mut l = RunLease { holder: None, expires_at: 0 };
    assert!(try_acquire(&mut l, 1, 1000, 3600));
    assert!(!try_acquire(&mut l, 2, 2000, 3600));
    assert_eq!(l.holder, Some(1));
    release(&mut l, 2);
    assert_eq!(l.holder, Some(1));
    release(&mut l, 1);
    assert!(try_acquire(&mut l, 2, 2000, 3600));
    assert!(try_acquire(&mut l, 3, 5600, 3600));
    assert_eq!(l, RunLease { holder: Some(3), expires_at: 9200 });
    assert!(try_acquire(&mut RunLease { holder: Some(1), expires_at: 0 }, 4, u64::MAX, 10));
}

#[test]
fn token_pool() {
    assert_eq!(pool_token_list(" a , b ,, c "), vec!["a", "b", "c"]);
    assert!(pool_token_list("  ").is_empty());
    assert_eq!(rand_token(""), NO_TOKEN);
    assert_eq!(rand_token(" , "), NO_TOKEN);
    assert_eq!(rand_token("only"), "only");
    for _ in 0..50 {
        let t = rand_token("x, y,z");
        assert!(t == "x" || t == "y" || t == "z");
    }
}

#[test]
fn boundary_moves_only_after_complete_reads() {
    let w = RunWindow { start: 100, end: 200 };
    assert_eq!(next_boundary(100, w, true), 200);
    assert_eq!(next_boundary(100, w, false), 100);
    assert_eq!(next_boundary(300, RunWindow { start: 200, end: 200 }, true), 300);
}

#[test]
fn retries_are_bounded() {
    assert_eq!(after_failure(0, 3, 2), RetryDecision::RetryAfter(2));
    assert_eq!(after_failure(1, 3, 2), RetryDecision::RetryAfter(4));
    assert_eq!(after_failure(2, 3, 2), RetryDecision::GiveUp);
    assert_eq!(after_failure(0, 0, 2), RetryDecision::GiveUp);
    assert_eq!(after_failure(5, 10, u64::MAX), RetryDecision::RetryAfter(u64::MAX));
}

#[test]
fn first_budget_of_captures() {
    let caps = |v: Vec<Option<&str>>| v.into_iter().map(|o| o.map(String::from)).collect::<Vec<_>>();
    assert_eq!(first_budget_in(&caps(vec![Some("05"), None, Some("1\u{663}"), Some("150"), Some("20")])), 150);
    assert_eq!(first_budget_in(&caps(vec![Some("009")])), 0);
    assert_eq!(first_budget_in(&Vec::new()), 0);
}

#[test]
fn assignment_items() {
    let a = assigned_event("u".to_string(), Some("amy".to_string()), "2024-06-17T10:00:00Z").unwrap();
    assert_eq!(a.issue_id, "u");
    assert_eq!(a.issue_assignee, "amy");
    assert_eq!(a.date_assigned, 1718618400);
    let b = assigned_event("u".to_string(), None, "2024-06-17T10:00:00Z").unwrap();
    assert_eq!(b.issue_assignee, "");
    assert!(assigned_event("u".to_string(), None, "later").is_none());
}

#[test]
fn projects_to_describe() {
    let mut ps: Vec<ProjectRecord> = Vec::new();
    for (id, logo) in [("a", ""), ("b", "l"), ("c", ""), ("d", "")] {
        let repo = RepoData {
            project_id: id.to_string(),
            repo_description: String::new(),
            repo_readme: String::new(),
            repo_stars: 0,
            main_language: String::new(),
            project_logo: logo.to_string(),
        };
        fill_project_w_repo_data(&mut ps, &repo);
    }
    assert_eq!(projects_lacking_metadata(&ps, 30), vec![0, 2, 3]);
    assert_eq!(projects_lacking_metadata(&ps, 2), vec![0, 2]);
}

#[test]
fn pages_after_the_end_are_ignored() {
    let mut p = Paginator::new(1, None);
    p.on_page(true, Some("c1".to_string()));
    assert_eq!(p.pages, 1);
    assert_eq!(p.next_request(), None);
    p.on_page(true, Some("c2".to_string()));
    assert_eq!(p.pages, 1);
    assert_eq!(p.cursor, Some("c1".to_string()));
}
