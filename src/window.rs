//! The window manager: the time window of a run and the tracker queries for
//! it. Times are seconds since the Unix epoch.
use vstd::prelude::*;

use crate::text::{push_all, string_of};

verus! {

/// The last second of the year 9999, the latest time written as a four-digit year.
pub const MAX_TIMESTAMP: u64 = 253402300799;

/// The UTC time `secs` written as `YYYY-MM-DDTHH:MM:SSZ`.
pub uninterp spec fn utc_text(secs: int) -> Seq<char>;

/// The seconds since the epoch of a date-time text, when it reads as one.
pub uninterp spec fn utc_seconds(text: Seq<char>) -> Option<int>;

/// Relies on chrono's `DateTime::<Utc>::from_timestamp` (defined for every
/// time up to the year 9999) and its `%Y-%m-%dT%H:%M:%SZ` formatting.
#[verifier::external_body]
fn format_utc(secs: u64) -> (r: String)
    requires
        secs <= MAX_TIMESTAMP,
    ensures
        r@ == utc_text(secs as int),
{
    match chrono::DateTime::from_timestamp(secs as i64, 0) {
        Some(t) => t.format("%Y-%m-%dT%H:%M:%SZ").to_string(),
        None => String::new(),
    }
}

/// Relies on chrono's `FromStr` for `DateTime<Utc>` (a relaxed RFC 3339) and
/// `DateTime::timestamp`.
#[verifier::external_body]
fn parse_utc(text: &str) -> (r: Option<i64>)
    ensures
        r matches Some(v) ==> utc_seconds(text@) == Some(v as int),
        r is None ==> utc_seconds(text@) is None,
{
    match text.parse::<chrono::DateTime<chrono::Utc>>() {
        Ok(t) => Some(t.timestamp()),
        Err(_) => None,
    }
}

/// The time of a date-time text of the tracker, when it reads as one at or
/// after the epoch.
pub fn timestamp_of(text: &str) -> (r: Option<u64>)
    ensures
        r matches Some(v) ==> utc_seconds(text@) == Some(v as int),
        r is None ==> !(utc_seconds(text@) matches Some(v) && v >= 0),
{
    match parse_utc(text) {
        Some(v) => if v >= 0 {
            Some(v as u64)
        } else {
            None
        },
        None => None,
    }
}

/// The UTC text of a time, when it is at most [`MAX_TIMESTAMP`].
pub fn utc_text_of(secs: u64) -> (r: Option<String>)
    ensures
        r matches Some(s) ==> secs <= MAX_TIMESTAMP && s@ == utc_text(secs as int),
        r is None ==> secs > MAX_TIMESTAMP,
{
    if secs <= MAX_TIMESTAMP {
        Some(format_utc(secs))
    } else {
        None
    }
}

/// The start of the hour that holds `t`.
pub fn hour_floor(t: u64) -> (r: u64)
    ensures
        r == t - t % 3600,
{
    t - t % 3600
}

/// A half-open window `[start, end)` of tracker activity.
#[derive(Clone, Copy, Debug, PartialEq, Eq, Structural)]
pub struct RunWindow {
    pub start: u64,
    pub end: u64,
}

impl RunWindow {
    pub open spec fn spec_is_empty(&self) -> bool {
        self.start >= self.end
    }

    pub fn is_empty(&self) -> (r: bool)
        ensures
            r == self.spec_is_empty(),
    {
        self.start >= self.end
    }
}

/// The window of a run from the boundary of the last run to now; empty when
/// the boundary is not before now (clock skew or a repeated run).
pub fn compute_window(prev: u64, now: u64) -> (w: RunWindow)
    ensures
        prev < now ==> w == (RunWindow { start: prev, end: now }),
        prev >= now ==> w == (RunWindow { start: now, end: now }),
{
    if prev < now {
        RunWindow { start: prev, end: now }
    } else {
        RunWindow { start: now, end: now }
    }
}

/// The boundary the next run starts from: the end of this run's window when
/// every search of it was read to the end, else the old boundary, so that the
/// next run reads the window again (staging is idempotent).
pub fn next_boundary(prev: u64, w: RunWindow, complete: bool) -> (r: u64)
    ensures
        r == if complete && !w.spec_is_empty() {
            w.end
        } else {
            prev
        },
{
    if complete && !w.is_empty() {
        w.end
    } else {
        prev
    }
}

/// The labels that exclude an item from every query.
pub const EXCLUDED_LABELS: &'static str = " -label:spam -label:invalid";

/// A search of the tracker for one kind of activity in a date range.
pub open spec fn query_text(
    start_date: Seq<char>,
    start_hour: Seq<char>,
    end_hour: Seq<char>,
    issue_label: Seq<char>,
    pr_label: Seq<char>,
    is_issue: bool,
    is_assigned_issue: bool,
    is_start: bool,
) -> Seq<char> {
    let range = start_hour + ".."@ + end_hour;
    if is_issue && is_start {
        "label:"@ + issue_label + " is:issue is:open no:assignee created:"@ + range
            + EXCLUDED_LABELS@
    } else if is_assigned_issue {
        "label:"@ + issue_label + " is:issue is:open created:>"@ + start_date + " updated:"@ + range
            + EXCLUDED_LABELS@
    } else if is_issue {
        "label:"@ + issue_label + " is:issue is:closed created:>"@ + start_date + " closed:"@
            + range + EXCLUDED_LABELS@
    } else {
        "label:"@ + pr_label + " is:pr is:merged merged:"@ + range + " review:approved"@
            + EXCLUDED_LABELS@
    }
}

/// The tracker search for one kind of activity between `start_hour` and
/// `end_hour`: issues opened without assignee, open issues updated, issues
/// closed, or pull requests merged with an approving review.
pub fn inner_query_1_hour(
    start_date: &str,
    start_hour: &str,
    end_hour: &str,
    issue_label: &str,
    pr_label: &str,
    is_issue: bool,
    is_assigned_issue: bool,
    is_start: bool,
) -> (r: String)
    ensures
        r@ == query_text(
            start_date@,
            start_hour@,
            end_hour@,
            issue_label@,
            pr_label@,
            is_issue,
            is_assigned_issue,
            is_start,
        ),
{
    let mut out: Vec<char> = Vec::new();
    push_all(&mut out, "label:");
    if is_issue && is_start {
        push_all(&mut out, issue_label);
        push_all(&mut out, " is:issue is:open no:assignee created:");
    } else if is_assigned_issue {
        push_all(&mut out, issue_label);
        push_all(&mut out, " is:issue is:open created:>");
        push_all(&mut out, start_date);
        push_all(&mut out, " updated:");
    } else if is_issue {
        push_all(&mut out, issue_label);
        push_all(&mut out, " is:issue is:closed created:>");
        push_all(&mut out, start_date);
        push_all(&mut out, " closed:");
    } else {
        push_all(&mut out, pr_label);
        push_all(&mut out, " is:pr is:merged merged:");
    }
    push_all(&mut out, start_hour);
    push_all(&mut out, "..");
    push_all(&mut out, end_hour);
    if !is_issue && !is_assigned_issue {
        push_all(&mut out, " review:approved");
    }
    push_all(&mut out, EXCLUDED_LABELS);
    proof {
        assert(out@ =~= query_text(
            start_date@,
            start_hour@,
            end_hour@,
            issue_label@,
            pr_label@,
            is_issue,
            is_assigned_issue,
            is_start,
        ));
    }
    string_of(&out)
}

/// The kinds of activity a run pulls, one query each.
#[derive(Clone, Copy, Debug, PartialEq, Eq, Structural)]
pub enum QueryKind {
    Opened,
    Updated,
    Closed,
    PullRequests,
}

/// The flags of [`inner_query_1_hour`] for a kind: is_issue, is_assigned_issue, is_start.
pub open spec fn kind_flags(k: QueryKind) -> (bool, bool, bool) {
    match k {
        QueryKind::Opened => (true, false, true),
        QueryKind::Updated => (false, true, false),
        QueryKind::Closed => (true, false, false),
        QueryKind::PullRequests => (false, false, false),
    }
}

/// One search of a run.
#[derive(Debug)]
pub struct QueryDescriptor {
    pub kind: QueryKind,
    pub query: String,
}

/// What a run searches for: the labels and the earliest creation date.
#[derive(Debug)]
pub struct RunConfig {
    pub start_date: String,
    pub issue_label: String,
    pub pr_label: String,
}

/// The search of a kind over a window.
pub open spec fn window_query(cfg: RunConfig, w: RunWindow, k: QueryKind) -> Seq<char> {
    query_text(
        cfg.start_date@,
        utc_text(w.start as int),
        utc_text(w.end as int),
        cfg.issue_label@,
        cfg.pr_label@,
        kind_flags(k).0,
        kind_flags(k).1,
        kind_flags(k).2,
    )
}

/// The kinds in the order a run searches them.
pub open spec fn run_kinds() -> Seq<QueryKind> {
    seq![QueryKind::Opened, QueryKind::Updated, QueryKind::Closed, QueryKind::PullRequests]
}

fn kind_query(cfg: &RunConfig, start: &String, end: &String, k: QueryKind) -> (q: QueryDescriptor)
    ensures
        q.kind == k,
        q.query@ == query_text(
            cfg.start_date@,
            start@,
            end@,
            cfg.issue_label@,
            cfg.pr_label@,
            kind_flags(k).0,
            kind_flags(k).1,
            kind_flags(k).2,
        ),
{
    let (a, b, c) = match k {
        QueryKind::Opened => (true, false, true),
        QueryKind::Updated => (false, true, false),
        QueryKind::Closed => (true, false, false),
        QueryKind::PullRequests => (false, false, false),
    };
    QueryDescriptor {
        kind: k,
        query: inner_query_1_hour(
            cfg.start_date.as_str(),
            start.as_str(),
            end.as_str(),
            cfg.issue_label.as_str(),
            cfg.pr_label.as_str(),
            a,
            b,
            c,
        ),
    }
}

/// The searches of a run over its window, one per kind of activity; none for
/// an empty window or one that ends after [`MAX_TIMESTAMP`].
pub fn query_descriptors(cfg: &RunConfig, w: RunWindow) -> (r: Vec<QueryDescriptor>)
    ensures
        (w.spec_is_empty() || w.end > MAX_TIMESTAMP) ==> r@.len() == 0,
        !(w.spec_is_empty() || w.end > MAX_TIMESTAMP) ==> {
            &&& r@.len() == 4
            &&& forall|i: int|
                0 <= i < 4 ==> (#[trigger] r@[i]).kind == run_kinds()[i] && r@[i].query@
                    == window_query(*cfg, w, run_kinds()[i])
        },
{
    let mut out: Vec<QueryDescriptor> = Vec::new();
    if w.is_empty() {
        return out;
    }
    let start = match utc_text_of(w.start) {
        Some(s) => s,
        None => return out,
    };
    let end = match utc_text_of(w.end) {
        Some(s) => s,
        None => return out,
    };
    out.push(kind_query(cfg, &start, &end, QueryKind::Opened));
    out.push(kind_query(cfg, &start, &end, QueryKind::Updated));
    out.push(kind_query(cfg, &start, &end, QueryKind::Closed));
    out.push(kind_query(cfg, &start, &end, QueryKind::PullRequests));
    out
}

} // verus!
