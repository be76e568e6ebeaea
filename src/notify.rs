//! The notification dispatcher: finds the issues whose state calls for a
//! comment, and keeps a ledger so that each (issue, kind) is posted once.
use vstd::prelude::*;

use crate::records::{issue_views, names_someone, IssueRecord, IssueView, ReviewStatus};
use crate::text::{
    decimal, decimal_chars, digits_value, is_digits, parse_digits, push_all, push_chars,
    split_chars, split_on, string_of, text_eq, chars_of,
};

verus! {

/// The four kinds of comment the dispatcher posts.
#[derive(Clone, Copy, Debug, PartialEq, Eq, Structural)]
pub enum NotificationKind {
    /// The budget was approved.
    GrantApproved,
    /// The review declined the issue.
    NotApproved,
    /// The budget was concluded: the assignee may claim the fund.
    ClaimFund,
    /// The issue is assigned but no pull request was linked for a long time.
    LinkPrReminder,
}

/// One comment that was posted.
#[derive(Debug)]
pub struct LedgerEntry {
    pub issue_id: String,
    pub kind: NotificationKind,
    pub sent_at: u64,
}

/// The time windows of the dispatcher, in seconds.
#[derive(Clone, Copy, Debug)]
pub struct NotifyConfig {
    /// How long after its approval a budget is still announced.
    pub approval_lookback: u64,
    /// How long an assigned issue may go without a linked pull request.
    pub stale_after: u64,
}

/// A comment to post.
#[derive(Debug)]
pub struct Notification {
    pub issue_id: String,
    pub kind: NotificationKind,
    pub body: String,
}

/// The ledger as (issue id, kind) pairs.
pub open spec fn ledger_keys(l: Seq<LedgerEntry>) -> Seq<(Seq<char>, NotificationKind)> {
    l.map_values(|e: LedgerEntry| (e.issue_id@, e.kind))
}

/// Whether the ledger records a post of this kind on this issue.
pub open spec fn in_ledger(l: Seq<LedgerEntry>, id: Seq<char>, k: NotificationKind) -> bool {
    ledger_keys(l).contains((id, k))
}

/// Whether the state of the record calls for this kind of comment at `now`.
pub open spec fn is_due(r: IssueView, k: NotificationKind, now: u64, cfg: NotifyConfig) -> bool {
    match k {
        NotificationKind::GrantApproved => r.budget is Some && r.review_status
            == ReviewStatus::Approve && r.date_approved is Some && now <= r.date_approved->0
            + cfg.approval_lookback,
        NotificationKind::NotApproved => r.review_status == ReviewStatus::Decline,
        NotificationKind::ClaimFund => r.budget_approved,
        NotificationKind::LinkPrReminder => names_someone(r.assignees) && r.linked_pr is None
            && r.date_assigned is Some && r.date_assigned->0 + cfg.stale_after <= now,
    }
}

/// The budget of a record, 0 when unset.
pub open spec fn budget_or_zero(r: IssueView) -> nat {
    match r.budget {
        Some(b) => b as nat,
        None => 0,
    }
}

/// The first assignee of a record, empty when there is none.
pub open spec fn first_assignee(r: IssueView) -> Seq<char> {
    if names_someone(r.assignees) {
        r.assignees->0[0]
    } else {
        Seq::empty()
    }
}

/// The text of the comment.
pub open spec fn message(r: IssueView, k: NotificationKind) -> Seq<char> {
    match k {
        NotificationKind::GrantApproved => "Congratulations! GOSIM grant approved. Your proposal is approved to get $"@
            + decimal(budget_or_zero(r)) + " fund to fix the issue."@,
        NotificationKind::NotApproved => "I\u{2019}m sorry your proposal wasn't approved"@,
        NotificationKind::ClaimFund => "@"@ + first_assignee(r)
            + ", Well done!  According to the PR commit history. @"@ + first_assignee(r)
            + " should receive $"@ + decimal(budget_or_zero(r))
            + ". Please fill in this form to claim your fund. "@,
        NotificationKind::LinkPrReminder => "please link your PR to the issue it fixed in three days. Or this issue will be deemed not completed, then we can\u{2019}t provide the fund."@,
    }
}

/// A planned comment: the issue, the kind, and the text.
pub type Planned = (Seq<char>, NotificationKind, Seq<char>);

/// The comment of this kind on this record, if it is due and not yet posted.
pub open spec fn plan_one(
    r: IssueView,
    k: NotificationKind,
    l: Seq<LedgerEntry>,
    now: u64,
    cfg: NotifyConfig,
) -> Seq<Planned> {
    if is_due(r, k, now, cfg) && !in_ledger(l, r.issue_id, k) {
        seq![(r.issue_id, k, message(r, k))]
    } else {
        Seq::empty()
    }
}

/// The comments one record calls for, in the order of the kinds.
pub open spec fn plan_record(r: IssueView, l: Seq<LedgerEntry>, now: u64, cfg: NotifyConfig) -> Seq<
    Planned,
> {
    plan_one(r, NotificationKind::GrantApproved, l, now, cfg) + plan_one(
        r,
        NotificationKind::NotApproved,
        l,
        now,
        cfg,
    ) + plan_one(r, NotificationKind::ClaimFund, l, now, cfg) + plan_one(
        r,
        NotificationKind::LinkPrReminder,
        l,
        now,
        cfg,
    )
}

/// The comments all records call for, record by record.
pub open spec fn planned(rs: Seq<IssueView>, l: Seq<LedgerEntry>, now: u64, cfg: NotifyConfig) -> Seq<
    Planned,
>
    decreases rs.len(),
{
    if rs.len() == 0 {
        Seq::empty()
    } else {
        planned(rs.drop_last(), l, now, cfg) + plan_record(rs.last(), l, now, cfg)
    }
}

/// The ledger after a post attempt: the post is recorded only when it went through.
pub open spec fn ledger_after(
    l: Seq<(Seq<char>, NotificationKind)>,
    id: Seq<char>,
    k: NotificationKind,
    posted: bool,
) -> Seq<(Seq<char>, NotificationKind)> {
    if posted && !l.contains((id, k)) {
        l.push((id, k))
    } else {
        l
    }
}

proof fn lemma_planned_skips_ledger(
    rs: Seq<IssueView>,
    l: Seq<LedgerEntry>,
    now: u64,
    cfg: NotifyConfig,
    id: Seq<char>,
    k: NotificationKind,
)
    requires
        in_ledger(l, id, k),
    ensures
        forall|i: int|
            0 <= i < planned(rs, l, now, cfg).len() ==> !(#[trigger] planned(rs, l, now, cfg)[i].0
                == id && planned(rs, l, now, cfg)[i].1 == k),
    decreases rs.len(),
{
    if rs.len() > 0 {
        lemma_planned_skips_ledger(rs.drop_last(), l, now, cfg, id, k);
    }
}

/// A ledger only grows: whatever a post attempt gives, what was recorded stays.
pub proof fn lemma_ledger_grows(
    l: Seq<(Seq<char>, NotificationKind)>,
    id: Seq<char>,
    k: NotificationKind,
    posted: bool,
    key: (Seq<char>, NotificationKind),
)
    ensures
        l.contains(key) ==> ledger_after(l, id, k, posted).contains(key),
        posted ==> ledger_after(l, id, k, posted).contains((id, k)),
{
    if l.contains(key) {
        let i = choose|i: int| 0 <= i < l.len() && l[i] == key;
        if posted && !l.contains((id, k)) {
            assert(l.push((id, k))[i] == key);
        }
    }
    if posted && !l.contains((id, k)) {
        assert(l.push((id, k))[l.len() as int] == (id, k));
    }
}

/// A comment is posted at most once: once a post of a kind on an issue went
/// through and the ledger recorded it, any later ledger still holds it, and a
/// run against such a ledger, whatever the records and the time, does not plan
/// that kind on that issue again.
pub proof fn lemma_posted_once(
    before: Seq<LedgerEntry>,
    id: Seq<char>,
    k: NotificationKind,
    later: Seq<LedgerEntry>,
    rs: Seq<IssueView>,
    now: u64,
    cfg: NotifyConfig,
)
    requires
        ledger_after(ledger_keys(before), id, k, true).is_prefix_of(ledger_keys(later)),
    ensures
        in_ledger(later, id, k),
        forall|i: int|
            0 <= i < planned(rs, later, now, cfg).len() ==> !(#[trigger] planned(rs, later, now, cfg)[i].0
                == id && planned(rs, later, now, cfg)[i].1 == k),
{
    let once = ledger_after(ledger_keys(before), id, k, true);
    lemma_ledger_grows(ledger_keys(before), id, k, true, (id, k));
    let j = choose|j: int| 0 <= j < once.len() && once[j] == (id, k);
    assert(ledger_keys(later)[j] == (id, k));
    lemma_planned_skips_ledger(rs, later, now, cfg, id, k);
}

/// The ledger never holds a post twice: recording a post keeps its entries distinct.
pub proof fn lemma_ledger_stays_distinct(
    l: Seq<(Seq<char>, NotificationKind)>,
    id: Seq<char>,
    k: NotificationKind,
    posted: bool,
)
    requires
        l.no_duplicates(),
    ensures
        ledger_after(l, id, k, posted).no_duplicates(),
{
    if posted && !l.contains((id, k)) {
        let after = l.push((id, k));
        assert forall|i: int, j: int|
            0 <= i < after.len() && 0 <= j < after.len() && i != j implies after[i] != after[j] by {
            if i == l.len() {
                assert(after[j] == l[j]);
            } else if j == l.len() {
                assert(after[i] == l[i]);
            }
        }
    }
}

// ---------------------------------------------------------------- executable

/// Whether the ledger records a post of this kind on this issue.
pub fn ledger_has(l: &Vec<LedgerEntry>, id: &str, k: NotificationKind) -> (r: bool)
    ensures
        r == in_ledger(l@, id@, k),
{
    let mut i: usize = 0;
    while i < l.len()
        invariant
            i <= l.len(),
            forall|j: int| 0 <= j < i ==> #[trigger] ledger_keys(l@)[j] != (id@, k),
        decreases l.len() - i,
    {
        if l[i].kind == k && text_eq(l[i].issue_id.as_str(), id) {
            proof {
                assert(ledger_keys(l@)[i as int] == (id@, k));
            }
            return true;
        }
        i = i + 1;
    }
    false
}

/// Records the outcome of a post: the ledger gains the entry only when the
/// post went through and the entry is new.
pub fn record_post(l: &mut Vec<LedgerEntry>, id: &str, k: NotificationKind, now: u64, posted: bool)
    ensures
        ledger_keys(final(l)@) == ledger_after(ledger_keys(old(l)@), id@, k, posted),
{
    if posted && !ledger_has(l, id, k) {
        let ghost before = l@;
        l.push(LedgerEntry { issue_id: id.to_owned(), kind: k, sent_at: now });
        proof {
            assert(ledger_keys(l@) =~= ledger_keys(before).push((id@, k)));
        }
    }
}

fn is_due_now(r: &IssueRecord, k: NotificationKind, now: u64, cfg: NotifyConfig) -> (b: bool)
    ensures
        b == is_due(r@, k, now, cfg),
{
    match k {
        NotificationKind::GrantApproved => {
            r.budget.is_some() && r.review_status == ReviewStatus::Approve && match r.date_approved {
                Some(t) => now as u128 <= t as u128 + cfg.approval_lookback as u128,
                None => false,
            }
        },
        NotificationKind::NotApproved => r.review_status == ReviewStatus::Decline,
        NotificationKind::ClaimFund => r.budget_approved,
        NotificationKind::LinkPrReminder => {
            let assigned = match &r.assignees {
                Some(v) => v.len() > 0,
                None => false,
            };
            assigned && r.linked_pr.is_none() && match r.date_assigned {
                Some(t) => t as u128 + cfg.stale_after as u128 <= now as u128,
                None => false,
            }
        },
    }
}

/// The text of the comment of this kind on the record.
pub fn message_for(r: &IssueRecord, k: NotificationKind) -> (s: String)
    ensures
        s@ == message(r@, k),
{
    let mut out: Vec<char> = Vec::new();
    let budget: u64 = match r.budget {
        Some(b) => b as u64,
        None => 0,
    };
    match k {
        NotificationKind::GrantApproved => {
            push_all(
                &mut out,
                "Congratulations! GOSIM grant approved. Your proposal is approved to get $",
            );
            push_chars(&mut out, &decimal_chars(budget));
            push_all(&mut out, " fund to fix the issue.");
        },
        NotificationKind::NotApproved => {
            push_all(&mut out, "I\u{2019}m sorry your proposal wasn't approved");
        },
        NotificationKind::ClaimFund => {
            let who: Vec<char> = match &r.assignees {
                Some(v) => if v.len() > 0 {
                    chars_of(v[0].as_str())
                } else {
                    Vec::new()
                },
                None => Vec::new(),
            };
            push_all(&mut out, "@");
            push_chars(&mut out, &who);
            push_all(&mut out, ", Well done!  According to the PR commit history. @");
            push_chars(&mut out, &who);
            push_all(&mut out, " should receive $");
            push_chars(&mut out, &decimal_chars(budget));
            push_all(&mut out, ". Please fill in this form to claim your fund. ");
        },
        NotificationKind::LinkPrReminder => {
            push_all(
                &mut out,
                "please link your PR to the issue it fixed in three days. Or this issue will be deemed not completed, then we can\u{2019}t provide the fund.",
            );
        },
    }
    proof {
        assert(out@ =~= message(r@, k));
    }
    string_of(&out)
}

/// The planned comments as (issue, kind, text) triples.
pub open spec fn notification_views(v: Seq<Notification>) -> Seq<Planned> {
    v.map_values(|n: Notification| (n.issue_id@, n.kind, n.body@))
}

fn plan_kind(
    out: &mut Vec<Notification>,
    r: &IssueRecord,
    k: NotificationKind,
    l: &Vec<LedgerEntry>,
    now: u64,
    cfg: NotifyConfig,
)
    ensures
        notification_views(final(out)@) == notification_views(old(out)@) + plan_one(
            r@,
            k,
            l@,
            now,
            cfg,
        ),
{
    let ghost before = out@;
    if is_due_now(r, k, now, cfg) && !ledger_has(l, r.issue_id.as_str(), k) {
        out.push(Notification { issue_id: r.issue_id.clone(), kind: k, body: message_for(r, k) });
        proof {
            assert(notification_views(out@) =~= notification_views(before) + plan_one(
                r@,
                k,
                l@,
                now,
                cfg,
            ));
        }
    } else {
        proof {
            assert(notification_views(out@) =~= notification_views(before) + plan_one(
                r@,
                k,
                l@,
                now,
                cfg,
            ));
        }
    }
}

/// The comments the records call for at `now` that the ledger does not hold yet.
pub fn plan_notifications(
    rs: &Vec<IssueRecord>,
    l: &Vec<LedgerEntry>,
    now: u64,
    cfg: NotifyConfig,
) -> (r: Vec<Notification>)
    ensures
        notification_views(r@) == planned(issue_views(rs@), l@, now, cfg),
{
    let ghost vs = issue_views(rs@);
    let mut out: Vec<Notification> = Vec::new();
    let mut i: usize = 0;
    proof {
        assert(notification_views(out@) =~= Seq::<Planned>::empty());
    }
    while i < rs.len()
        invariant
            i <= rs.len(),
            vs == issue_views(rs@),
            notification_views(out@) == planned(vs.take(i as int), l@, now, cfg),
        decreases rs.len() - i,
    {
        let r = &rs[i];
        proof {
            assert(vs.take(i as int + 1).drop_last() =~= vs.take(i as int));
            assert(vs.take(i as int + 1).last() == r@);
        }
        let ghost start = notification_views(out@);
        plan_kind(&mut out, r, NotificationKind::GrantApproved, l, now, cfg);
        plan_kind(&mut out, r, NotificationKind::NotApproved, l, now, cfg);
        plan_kind(&mut out, r, NotificationKind::ClaimFund, l, now, cfg);
        plan_kind(&mut out, r, NotificationKind::LinkPrReminder, l, now, cfg);
        proof {
            assert(notification_views(out@) =~= start + plan_record(r@, l@, now, cfg));
        }
        i = i + 1;
    }
    proof {
        assert(vs.take(rs@.len() as int) =~= vs);
    }
    out
}

/// The endpoint for comments on an issue, from the issue's URL
/// (`.../{owner}/{repo}/issues/{number}`). `None` when the URL has too few
/// parts or its number is not a decimal of at most `i32::MAX`, so that nothing
/// is posted to a wrong issue.
pub open spec fn comment_url(issue_id: Seq<char>) -> Option<Seq<char>> {
    let parts = split_on(issue_id, '/');
    let n = parts.len();
    if n < 4 {
        None
    } else if !(is_digits(parts[n - 1]) && digits_value(parts[n - 1]) <= 0x7fff_ffff) {
        None
    } else {
        Some(
            "https://api.github.com/repos/"@ + parts[n - 4] + "/"@ + parts[n - 3] + "/issues/"@
                + decimal(digits_value(parts[n - 1])) + "/comments"@,
        )
    }
}

/// The endpoint for comments on the issue.
pub fn comment_on_issue_url(issue_id: &str) -> (r: Option<String>)
    ensures
        r matches Some(s) ==> comment_url(issue_id@) == Some(s@),
        r is None ==> comment_url(issue_id@) is None,
{
    let cs = chars_of(issue_id);
    let parts = split_chars(&cs, '/');
    let n = parts.len();
    if n < 4 {
        return None;
    }
    let number: u64 = match parse_digits(&parts[n - 1], 0x7fff_ffff) {
        Some(v) => v,
        None => return None,
    };
    let mut out: Vec<char> = Vec::new();
    push_all(&mut out, "https://api.github.com/repos/");
    push_chars(&mut out, &parts[n - 4]);
    push_all(&mut out, "/");
    push_chars(&mut out, &parts[n - 3]);
    push_all(&mut out, "/issues/");
    push_chars(&mut out, &decimal_chars(number));
    push_all(&mut out, "/comments");
    proof {
        assert(out@ =~= comment_url(issue_id@)->0);
    }
    Some(string_of(&out))
}

} // verus!
