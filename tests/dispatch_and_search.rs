use gosim_project::enrich::{
    chat_reply_text, extract_summary_from_answer, issue_prompt, keywords_from_capture,
    parse_summary_and_keywords,
    project_prompt, ChatChoice, ChatMessage, ChatResponse, Role, ISSUE_PROMPT_LONG,
    ISSUE_PROMPT_SHORT, PROJECT_PROMPT_SHORT,
};
use gosim_project::events::{IssueClosed, IssueOpen, RepoData, StagedBatch};
use gosim_project::merge::consolidate;
use gosim_project::notify::{
    comment_on_issue_url, message_for, plan_notifications, record_post, LedgerEntry,
    NotificationKind, NotifyConfig,
};
use gosim_project::records::IssueRecord;
use gosim_project::review::{assign_issue_budget_in_db, conclude_issue_in_db, decline_issue_in_db};
use gosim_project::search::{
    add_summary, filter_matches, issues_needing_summary, mark_id_indexed, search_by_keyword_tags,
    select_for_indexing, ScoredMatch,
    SummaryIndexRecord,
};

fn records() -> Vec<IssueRecord> {
    let mut b = StagedBatch {
        opens: Vec::new(),
        comments: Vec::new(),
        assigns: Vec::new(),
        closeds: Vec::new(),
        pulls: Vec::new(),
    };
    for id in ["https://github.com/o/r/issues/1", "https://github.com/o/r/issues/2", "https://github.com/o/r/issues/3"] {
        b.opens.push(IssueOpen {
            node_id: String::new(),
            issue_title: "t".to_string(),
            issue_id: id.to_string(),
            issue_creator: "c".to_string(),
            issue_budget: 0,
            issue_description: "d".to_string(),
            project_id: "https://github.com/o/r".to_string(),
        });
    }
    b.closeds.push(IssueClosed {
        issue_id: "https://github.com/o/r/issues/3".to_string(),
        issue_assignees: Some(vec!["alice".to_string()]),
        issue_linked_pr: None,
    });
    let mut rs = Vec::new();
    consolidate(&mut rs, &b);
    rs
}

const CFG: NotifyConfig = NotifyConfig { approval_lookback: 3600, stale_after: 30 * 86400 };

#[test]
fn each_notification_is_posted_once() {
    let mut rs = records();
    assign_issue_budget_in_db(&mut rs, "https://github.com/o/r/issues/1", 150, 1000).unwrap();
    decline_issue_in_db(&mut rs, "https://github.com/o/r/issues/2", 1000).unwrap();
    let mut ledger: Vec<LedgerEntry> = Vec::new();
    let plan = plan_notifications(&rs, &ledger, 2000, CFG);
    let kinds: Vec<NotificationKind> = plan.iter().map(|n| n.kind).collect();
    assert_eq!(kinds, vec![NotificationKind::GrantApproved, NotificationKind::NotApproved]);
    assert_eq!(
        plan[0].body,
        "Congratulations! GOSIM grant approved. Your proposal is approved to get $150 fund to fix the issue."
    );
    // the first post fails, the second goes through
    record_post(&mut ledger, &plan[0].issue_id, plan[0].kind, 2000, false);
    record_post(&mut ledger, &plan[1].issue_id, plan[1].kind, 2000, true);
    let again = plan_notifications(&rs, &ledger, 2100, CFG);
    let kinds: Vec<NotificationKind> = again.iter().map(|n| n.kind).collect();
    assert_eq!(kinds, vec![NotificationKind::GrantApproved]);
    record_post(&mut ledger, &again[0].issue_id, again[0].kind, 2100, true);
    record_post(&mut ledger, &again[0].issue_id, again[0].kind, 2200, true);
    assert_eq!(ledger.len(), 2);
    assert!(plan_notifications(&rs, &ledger, 2200, CFG).is_empty());
}

#[test]
fn approval_is_announced_within_lookback_only() {
    let mut rs = records();
    assign_issue_budget_in_db(&mut rs, "https://github.com/o/r/issues/1", 150, 1000).unwrap();
    let ledger: Vec<LedgerEntry> = Vec::new();
    assert_eq!(plan_notifications(&rs, &ledger, 4600, CFG).len(), 1);
    assert_eq!(plan_notifications(&rs, &ledger, 4601, CFG).len(), 0);
}

#[test]
fn claim_fund_and_reminder_messages() {
    let mut rs = records();
    let issue3 = "https://github.com/o/r/issues/3";
    assign_issue_budget_in_db(&mut rs, issue3, 200, 0).unwrap();
    conclude_issue_in_db(&mut rs, issue3, 10).unwrap();
    rs[2].date_assigned = Some(100);
    let ledger: Vec<LedgerEntry> = Vec::new();
    let plan = plan_notifications(&rs, &ledger, 100 + 30 * 86400, CFG);
    let kinds: Vec<NotificationKind> = plan.iter().map(|n| n.kind).collect();
    assert_eq!(kinds, vec![NotificationKind::ClaimFund, NotificationKind::LinkPrReminder]);
    assert_eq!(
        plan[0].body,
        "@alice, Well done!  According to the PR commit history. @alice should receive $200. Please fill in this form to claim your fund. "
    );
    assert_eq!(
        message_for(&rs[1], NotificationKind::NotApproved),
        "I\u{2019}m sorry your proposal wasn't approved"
    );
    assert!(plan_notifications(&rs, &ledger, 99 + 30 * 86400, CFG)
        .iter()
        .all(|n| n.kind != NotificationKind::LinkPrReminder));
}

#[test]
fn comment_endpoint_of_issue() {
    assert_eq!(
        comment_on_issue_url("https://github.com/alabulei1/a-test/issues/87").as_deref(),
        Some("https://api.github.com/repos/alabulei1/a-test/issues/87/comments")
    );
    assert_eq!(
        comment_on_issue_url("https://github.com/o/r/issues/x").as_deref(),
        None
    );
    assert_eq!(comment_on_issue_url("https://github.com/o/r/issues/2147483648"), None);
    assert_eq!(
        comment_on_issue_url("https://github.com/o/r/issues/2147483647").as_deref(),
        Some("https://api.github.com/repos/o/r/issues/2147483647/comments")
    );
    assert_eq!(comment_on_issue_url("a/b/c"), None);
}

fn m(id: &str, score: i64) -> ScoredMatch {
    ScoredMatch { source_id: id.to_string(), text: format!("text {id}"), score }
}

#[test]
fn similarity_keeps_scores_above_threshold() {
    let ms = vec![m("a", 900_000), m("b", 790_000), m("c", 790_001), m("d", 100), m("e", 950_000), m("f", 999_999)];
    let kept = filter_matches(&ms, 790_000, 5);
    assert_eq!(
        kept,
        vec![
            ("a".to_string(), "text a".to_string()),
            ("c".to_string(), "text c".to_string()),
            ("e".to_string(), "text e".to_string()),
        ]
    );
    assert!(filter_matches(&ms, 999_999, 5).is_empty());
    assert!(filter_matches(&Vec::new(), 0, 5).is_empty());
}

#[test]
fn malformed_reply_gives_empty_processed_record() {
    let (summary, keywords) = parse_summary_and_keywords("not json");
    assert_eq!(summary, "");
    assert!(keywords.is_empty());
    let mut index: Vec<SummaryIndexRecord> = Vec::new();
    assert!(add_summary(&mut index, "I1", summary, keywords));
    assert_eq!(index.len(), 1);
    assert_eq!(index[0].summary, "");
    assert!(index[0].keyword_tags.is_empty());
    assert!(!index[0].indexed);
    // the record exists, so it is not summarized again, and an empty summary is not embedded
    assert!(!add_summary(&mut index, "I1", "x".to_string(), Vec::new()));
    assert!(select_for_indexing(&index, 50).is_empty());
}

#[test]
fn reply_summary_and_keywords() {
    let reply = "Sure! { \"summary\":  \"A tool that syncs \", \"keywords\": [\"rust\", \" wasm \", \"\", \"sync\"] }";
    let (summary, keywords) = parse_summary_and_keywords(reply);
    assert_eq!(summary, "A tool that syncs ");
    assert_eq!(keywords, vec!["rust", " wasm ", "sync"]);
    let (s2, k2) = parse_summary_and_keywords("\"summary\": 7 \"summary\":\"second\" \"keywords\": a, b}");
    assert_eq!(s2, "second");
    assert_eq!(k2, vec!["a", "b"]);
    let (s3, k3) = parse_summary_and_keywords("{\"summary\": \"unterminated");
    assert_eq!(s3, "");
    assert!(k3.is_empty());
}

#[test]
fn indexing_flag_follows_upserts() {
    let mut index: Vec<SummaryIndexRecord> = Vec::new();
    add_summary(&mut index, "A", "alpha".to_string(), vec!["x".to_string()]);
    add_summary(&mut index, "B", "beta".to_string(), Vec::new());
    add_summary(&mut index, "C", "gamma".to_string(), Vec::new());
    assert_eq!(select_for_indexing(&index, 2), vec![0, 1]);
    mark_id_indexed(&mut index, "A", false);
    assert!(!index[0].indexed);
    mark_id_indexed(&mut index, "A", true);
    assert!(index[0].indexed);
    assert_eq!(select_for_indexing(&index, 50), vec![1, 2]);
}

#[test]
fn answer_summary_lines() {
    assert_eq!(extract_summary_from_answer("  just one line  "), "just one line");
    assert_eq!(extract_summary_from_answer("Title\r\n\r\n  \nThe summary\nmore"), "The summary");
    assert_eq!(extract_summary_from_answer("Title\n   \n"), "Title");
    assert_eq!(extract_summary_from_answer("Title\n \t\nx"), "x");
    assert_eq!(extract_summary_from_answer("Title\n\u{a0}\n"), "Title");
    assert_eq!(extract_summary_from_answer(""), "");
}

#[test]
fn answer_skips_blank_lines() {
    assert_eq!(extract_summary_from_answer("Title\n  \r\nEnd"), "End");
    let only_blank_after = "Title\n\u{2003}\nx";
    assert_eq!(extract_summary_from_answer(only_blank_after), "x");
}

#[test]
fn prompts_pick_variant_by_length() {
    let short = issue_prompt("https://github.com/own/rep/issues/4", "Crash", "it crashes").unwrap();
    assert_eq!(short.system_prompt, ISSUE_PROMPT_SHORT);
    assert_eq!(short.max_tokens, 180);
    assert_eq!(
        short.user_prompt,
        "Here is the input: `Crash` at repository `rep` by owner `own`, states: it crashes"
    );
    let long_text = "y".repeat(5000);
    let long = issue_prompt("https://github.com/own/rep/issues/4", "Crash", &long_text).unwrap();
    assert_eq!(long.system_prompt, ISSUE_PROMPT_LONG);
    assert_eq!(long.max_tokens, 250);
    assert_eq!(long.user_prompt.chars().count(), 4000);
    assert!(long.user_prompt.starts_with("Here is the input: The issue titled `Crash` at repository `rep` by owner `own`, states in the body text: yyy"));
    assert!(issue_prompt("no-slashes", "t", "d").is_none());

    let repo = RepoData {
        project_id: "https://github.com/own/rep".to_string(),
        repo_description: "A thing".to_string(),
        repo_readme: String::new(),
        repo_stars: 3,
        main_language: "Rust".to_string(),
        project_logo: String::new(),
    };
    let p = project_prompt(&repo).unwrap();
    assert_eq!(p.system_prompt, PROJECT_PROMPT_SHORT);
    assert_eq!(
        p.user_prompt,
        "Here is the input: The repository `rep` by owner `own` mainly uses `Rust` in the project,`A thing`, "
    );
}

#[test]
fn first_choice_of_reply() {
    let resp = ChatResponse {
        choices: vec![ChatChoice {
            finish_reason: None,
            index: 0,
            message: ChatMessage { content: Some("hello".to_string()), role: Role::Assistant },
        }],
        model: "m".to_string(),
    };
    assert_eq!(chat_reply_text(&resp), Some("hello".to_string()));
    let empty = ChatResponse { choices: Vec::new(), model: "m".to_string() };
    assert_eq!(chat_reply_text(&empty), None);
}

#[test]
fn issues_without_summary_are_queued_once() {
    let rs = records();
    let mut index: Vec<SummaryIndexRecord> = Vec::new();
    assert_eq!(issues_needing_summary(&rs, &index, 50), vec![0, 1, 2]);
    assert_eq!(issues_needing_summary(&rs, &index, 2), vec![0, 1]);
    let (summary, keywords) = parse_summary_and_keywords("not json");
    add_summary(&mut index, "https://github.com/o/r/issues/2", summary, keywords);
    assert_eq!(issues_needing_summary(&rs, &index, 50), vec![0, 2]);
}

#[test]
fn keyword_search_lists_each_id_once() {
    let mut index: Vec<SummaryIndexRecord> = Vec::new();
    add_summary(&mut index, "A", "a".to_string(), vec!["rust".to_string(), "wasm".to_string()]);
    add_summary(&mut index, "B", "b".to_string(), vec!["go".to_string()]);
    add_summary(&mut index, "C", "c".to_string(), vec!["wasm".to_string()]);
    let found = search_by_keyword_tags(&index, &vec!["wasm".to_string(), "rust".to_string()]);
    assert_eq!(found, vec!["A".to_string(), "C".to_string()]);
    assert!(search_by_keyword_tags(&index, &vec!["java".to_string()]).is_empty());
    assert!(search_by_keyword_tags(&index, &Vec::new()).is_empty());
}

#[test]
fn keyword_capture_is_split_and_cleaned() {
    assert_eq!(keywords_from_capture("\"a\", \" b \",,\n\"c\"}"), vec!["a", " b ", "c"]);
    assert!(keywords_from_capture("").is_empty());
    assert!(keywords_from_capture(" , \"\" ").is_empty());
}
