//! The consolidation engine: merges staged events into the master issue
//! records under per-field policies.
//!
//! - open: creates the record if absent; the first writer wins.
//! - comment: the comment fields follow the newest comment; the assignees
//!   are taken only when none are recorded or the comment is strictly newer.
//! - assignment: the assignee and the date of assignment are taken only when
//!   nobody is recorded; the first writer wins.
//! - closed: the assignees are overwritten (a closing event is authoritative);
//!   the linked pull request is set only if unset.
//! - pull request: the linked pull request and the assignees of each connected
//!   issue are set only if unset.
use vstd::prelude::*;

use crate::events::{IssueAssigned, IssueClosed, IssueComment, IssueOpen, OuterPull, StagedBatch};
use crate::records::{
    all_issues_wf, copy_names, find_issue, has_issue, ids_unique, is_assigned, issue_views, issue_wf,
    lemma_issue_pos, opt_text,
    opt_texts, texts, IssueRecord, IssueView, ReviewStatus,
};
use crate::review::coalesce;
use crate::text::text_eq;

verus! {

// ---------------------------------------------------------------- comments

/// Whether the comment is strictly newer than the last one recorded.
pub open spec fn is_newer(r: IssueView, e: IssueComment) -> bool {
    r.last_comment_time is None || e.comment_date > r.last_comment_time->0
}

/// Whether the comment takes over the assignees.
pub open spec fn takes_assignees(r: IssueView, e: IssueComment) -> bool {
    is_assigned(opt_texts(e.assignees)) && (!is_assigned(r.assignees) || is_newer(r, e))
}

pub open spec fn merge_comment(r: IssueView, e: IssueComment) -> IssueView {
    if e.issue_id@ != r.issue_id {
        r
    } else {
        let newer = is_newer(r, e);
        let take = takes_assignees(r, e);
        IssueView {
            last_comment_time: if newer {
                Some(e.comment_date)
            } else {
                r.last_comment_time
            },
            last_comment_author: if newer {
                e.comment_creator@
            } else {
                r.last_comment_author
            },
            last_comment_body: if newer {
                e.comment_body@
            } else {
                r.last_comment_body
            },
            assignees: if take {
                opt_texts(e.assignees)
            } else {
                r.assignees
            },
            date_assigned: if take {
                coalesce(r.date_assigned, Some(e.comment_date))
            } else {
                r.date_assigned
            },
            ..r
        }
    }
}

pub open spec fn merge_comments(r: IssueView, es: Seq<IssueComment>) -> IssueView
    decreases es.len(),
{
    if es.len() == 0 {
        r
    } else {
        merge_comment(merge_comments(r, es.drop_last()), es.last())
    }
}

/// The comment changes nothing when merged into the record.
pub open spec fn comment_settled(r: IssueView, e: IssueComment) -> bool {
    e.issue_id@ != r.issue_id || (!is_newer(r, e) && (is_assigned(opt_texts(e.assignees))
        ==> is_assigned(r.assignees)))
}

/// `b` is at least as far along as `a` on the comment axis and the assignment axis.
pub open spec fn comment_progress(a: IssueView, b: IssueView) -> bool {
    &&& a.issue_id == b.issue_id
    &&& (a.last_comment_time is Some ==> b.last_comment_time is Some && b.last_comment_time->0
        >= a.last_comment_time->0)
    &&& (is_assigned(a.assignees) ==> is_assigned(b.assignees))
}

proof fn lemma_comment_progress_settled(a: IssueView, b: IssueView, e: IssueComment)
    requires
        comment_progress(a, b),
        comment_settled(a, e),
    ensures
        comment_settled(b, e),
{
}

proof fn lemma_merge_comment_progress(r: IssueView, e: IssueComment)
    ensures
        comment_progress(r, merge_comment(r, e)),
        comment_settled(merge_comment(r, e), e),
{
}

proof fn lemma_merge_comments_progress(r: IssueView, es: Seq<IssueComment>)
    ensures
        comment_progress(r, merge_comments(r, es)),
        forall|k: int| 0 <= k < es.len() ==> comment_settled(merge_comments(r, es), #[trigger] es[k]),
    decreases es.len(),
{
    if es.len() > 0 {
        let mid = merge_comments(r, es.drop_last());
        lemma_merge_comments_progress(r, es.drop_last());
        lemma_merge_comment_progress(mid, es.last());
        assert forall|k: int| 0 <= k < es.len() implies comment_settled(
            merge_comments(r, es),
            #[trigger] es[k],
        ) by {
            if k < es.len() - 1 {
                assert(es.drop_last()[k] == es[k]);
                lemma_comment_progress_settled(mid, merge_comment(mid, es.last()), es[k]);
            }
        }
    }
}

proof fn lemma_merge_comments_settled(r: IssueView, es: Seq<IssueComment>)
    requires
        forall|k: int| 0 <= k < es.len() ==> comment_settled(r, #[trigger] es[k]),
    ensures
        merge_comments(r, es) == r,
    decreases es.len(),
{
    if es.len() > 0 {
        assert forall|k: int| 0 <= k < es.drop_last().len() implies comment_settled(
            r,
            #[trigger] es.drop_last()[k],
        ) by {
            assert(es.drop_last()[k] == es[k]);
        }
        lemma_merge_comments_settled(r, es.drop_last());
        assert(comment_settled(r, es[es.len() - 1]));
    }
}

// ---------------------------------------------------------------- assignments

pub open spec fn merge_assign(r: IssueView, e: IssueAssigned) -> IssueView {
    if e.issue_id@ != r.issue_id || e.issue_assignee@.len() == 0 || is_assigned(r.assignees) {
        r
    } else {
        IssueView {
            assignees: Some(seq![e.issue_assignee@]),
            date_assigned: coalesce(r.date_assigned, Some(e.date_assigned)),
            ..r
        }
    }
}

pub open spec fn merge_assigns(r: IssueView, es: Seq<IssueAssigned>) -> IssueView
    decreases es.len(),
{
    if es.len() == 0 {
        r
    } else {
        merge_assign(merge_assigns(r, es.drop_last()), es.last())
    }
}

/// The assignment changes nothing when merged into the record.
pub open spec fn assign_settled(r: IssueView, e: IssueAssigned) -> bool {
    e.issue_id@ != r.issue_id || e.issue_assignee@.len() == 0 || is_assigned(r.assignees)
}

proof fn lemma_merge_assigns_shape(r: IssueView, es: Seq<IssueAssigned>)
    ensures
        merge_assigns(r, es) == (IssueView {
            assignees: merge_assigns(r, es).assignees,
            date_assigned: merge_assigns(r, es).date_assigned,
            ..r
        }),
        is_assigned(r.assignees) ==> merge_assigns(r, es) == r,
        forall|k: int| 0 <= k < es.len() ==> assign_settled(merge_assigns(r, es), #[trigger] es[k]),
    decreases es.len(),
{
    if es.len() > 0 {
        lemma_merge_assigns_shape(r, es.drop_last());
        let m = merge_assigns(r, es.drop_last());
        assert forall|k: int| 0 <= k < es.len() implies assign_settled(
            merge_assigns(r, es),
            #[trigger] es[k],
        ) by {
            if k < es.len() - 1 {
                assert(es.drop_last()[k] == es[k]);
                assert(assign_settled(m, es.drop_last()[k]));
            }
        }
    }
}

proof fn lemma_merge_assigns_settled(r: IssueView, es: Seq<IssueAssigned>)
    requires
        forall|k: int| 0 <= k < es.len() ==> assign_settled(r, #[trigger] es[k]),
    ensures
        merge_assigns(r, es) == r,
    decreases es.len(),
{
    if es.len() > 0 {
        assert forall|k: int| 0 <= k < es.drop_last().len() implies assign_settled(
            r,
            #[trigger] es.drop_last()[k],
        ) by {
            assert(es.drop_last()[k] == es[k]);
        }
        lemma_merge_assigns_settled(r, es.drop_last());
        assert(assign_settled(r, es[es.len() - 1]));
    }
}

// ---------------------------------------------------------------- closed

pub open spec fn merge_closed(r: IssueView, c: IssueClosed) -> IssueView {
    if c.issue_id@ != r.issue_id {
        r
    } else {
        IssueView {
            assignees: if is_assigned(opt_texts(c.issue_assignees)) {
                opt_texts(c.issue_assignees)
            } else {
                r.assignees
            },
            linked_pr: coalesce(r.linked_pr, opt_text(c.issue_linked_pr)),
            ..r
        }
    }
}

pub open spec fn merge_closeds(r: IssueView, cs: Seq<IssueClosed>) -> IssueView
    decreases cs.len(),
{
    if cs.len() == 0 {
        r
    } else {
        merge_closed(merge_closeds(r, cs.drop_last()), cs.last())
    }
}

/// The assignees of the last closed event of the issue that names someone.
pub open spec fn last_closed_assignees(cs: Seq<IssueClosed>, id: Seq<char>) -> Option<
    Seq<Seq<char>>,
>
    decreases cs.len(),
{
    if cs.len() == 0 {
        None
    } else if cs.last().issue_id@ == id && is_assigned(opt_texts(cs.last().issue_assignees)) {
        opt_texts(cs.last().issue_assignees)
    } else {
        last_closed_assignees(cs.drop_last(), id)
    }
}

/// The linked pull request of the first closed event of the issue that names one.
pub open spec fn first_closed_pr(cs: Seq<IssueClosed>, id: Seq<char>) -> Option<Seq<char>>
    decreases cs.len(),
{
    if cs.len() == 0 {
        None
    } else {
        let before = first_closed_pr(cs.drop_last(), id);
        if before is Some {
            before
        } else if cs.last().issue_id@ == id {
            opt_text(cs.last().issue_linked_pr)
        } else {
            None
        }
    }
}

proof fn lemma_last_closed_assignees(cs: Seq<IssueClosed>, id: Seq<char>)
    ensures
        last_closed_assignees(cs, id) is Some ==> is_assigned(last_closed_assignees(cs, id)),
    decreases cs.len(),
{
    if cs.len() > 0 {
        lemma_last_closed_assignees(cs.drop_last(), id);
    }
}

/// The closed events merged in turn, in closed form.
proof fn lemma_merge_closeds_closed_form(r: IssueView, cs: Seq<IssueClosed>)
    ensures
        merge_closeds(r, cs) == (IssueView {
            assignees: if last_closed_assignees(cs, r.issue_id) is Some {
                last_closed_assignees(cs, r.issue_id)
            } else {
                r.assignees
            },
            linked_pr: coalesce(r.linked_pr, first_closed_pr(cs, r.issue_id)),
            ..r
        }),
    decreases cs.len(),
{
    if cs.len() > 0 {
        lemma_merge_closeds_closed_form(r, cs.drop_last());
    }
}

// ---------------------------------------------------------------- pull requests

/// Whether the pull request closes the issue.
pub open spec fn pull_touches(p: OuterPull, id: Seq<char>) -> bool {
    texts(p.connected_issues@).contains(id)
}

pub open spec fn merge_pull(r: IssueView, p: OuterPull) -> IssueView {
    if !pull_touches(p, r.issue_id) {
        r
    } else {
        IssueView {
            linked_pr: coalesce(r.linked_pr, Some(p.pull_id@)),
            assignees: if !is_assigned(r.assignees) && p.pull_author is Some {
                Some(seq![p.pull_author->0@])
            } else {
                r.assignees
            },
            ..r
        }
    }
}

pub open spec fn merge_pulls(r: IssueView, ps: Seq<OuterPull>) -> IssueView
    decreases ps.len(),
{
    if ps.len() == 0 {
        r
    } else {
        merge_pull(merge_pulls(r, ps.drop_last()), ps.last())
    }
}

/// The pull request changes nothing when merged into the record.
pub open spec fn pull_settled(r: IssueView, p: OuterPull) -> bool {
    !pull_touches(p, r.issue_id) || (r.linked_pr is Some && (p.pull_author is Some
        ==> is_assigned(r.assignees)))
}

/// `b` differs from `a` only by coalescing the link and the assignees.
pub open spec fn pull_progress(a: IssueView, b: IssueView) -> bool {
    &&& b == (IssueView { linked_pr: b.linked_pr, assignees: b.assignees, ..a })
    &&& (a.linked_pr is Some ==> b.linked_pr == a.linked_pr)
    &&& (is_assigned(a.assignees) ==> b.assignees == a.assignees)
    &&& (a.linked_pr is Some ==> b.linked_pr is Some)
    &&& (is_assigned(a.assignees) ==> is_assigned(b.assignees))
}

proof fn lemma_merge_pull_progress(r: IssueView, p: OuterPull)
    ensures
        pull_progress(r, merge_pull(r, p)),
        pull_settled(merge_pull(r, p), p),
{
}

proof fn lemma_merge_pulls_progress(r: IssueView, ps: Seq<OuterPull>)
    ensures
        pull_progress(r, merge_pulls(r, ps)),
        forall|k: int| 0 <= k < ps.len() ==> pull_settled(merge_pulls(r, ps), #[trigger] ps[k]),
    decreases ps.len(),
{
    if ps.len() > 0 {
        let mid = merge_pulls(r, ps.drop_last());
        lemma_merge_pulls_progress(r, ps.drop_last());
        lemma_merge_pull_progress(mid, ps.last());
        assert forall|k: int| 0 <= k < ps.len() implies pull_settled(
            merge_pulls(r, ps),
            #[trigger] ps[k],
        ) by {
            if k < ps.len() - 1 {
                assert(ps.drop_last()[k] == ps[k]);
            }
        }
    }
}

proof fn lemma_merge_pulls_settled(r: IssueView, ps: Seq<OuterPull>)
    requires
        forall|k: int| 0 <= k < ps.len() ==> pull_settled(r, #[trigger] ps[k]),
    ensures
        merge_pulls(r, ps) == r,
    decreases ps.len(),
{
    if ps.len() > 0 {
        assert forall|k: int| 0 <= k < ps.drop_last().len() implies pull_settled(
            r,
            #[trigger] ps.drop_last()[k],
        ) by {
            assert(ps.drop_last()[k] == ps[k]);
        }
        lemma_merge_pulls_settled(r, ps.drop_last());
        assert(pull_settled(r, ps[ps.len() - 1]));
    }
}

// ---------------------------------------------------------------- one record

/// One record after the comment, closed and pull-request events of the batch.
pub open spec fn merge_record(r: IssueView, b: StagedBatch) -> IssueView {
    merge_pulls(
        merge_closeds(merge_assigns(merge_comments(r, b.comments@), b.assigns@), b.closeds@),
        b.pulls@,
    )
}

proof fn lemma_merge_record_idempotent(r: IssueView, b: StagedBatch)
    ensures
        merge_record(merge_record(r, b), b) == merge_record(r, b),
{
    let a = merge_comments(r, b.comments@);
    let y = merge_assigns(a, b.assigns@);
    let c = merge_closeds(y, b.closeds@);
    let g = merge_pulls(c, b.pulls@);
    lemma_merge_comments_progress(r, b.comments@);
    lemma_merge_assigns_shape(a, b.assigns@);
    lemma_merge_closeds_closed_form(y, b.closeds@);
    lemma_last_closed_assignees(b.closeds@, y.issue_id);
    lemma_merge_pulls_progress(c, b.pulls@);
    // the comments are settled in `g`: assigning, closing and linking only ever add
    assert(comment_progress(a, y));
    assert(comment_progress(y, g));
    assert(comment_progress(a, g));
    assert forall|k: int| 0 <= k < b.comments@.len() implies comment_settled(
        g,
        #[trigger] b.comments@[k],
    ) by {
        lemma_comment_progress_settled(a, g, b.comments@[k]);
    }
    lemma_merge_comments_settled(g, b.comments@);
    // the assignments are settled in `g`: an assigned record stays assigned
    assert forall|k: int| 0 <= k < b.assigns@.len() implies assign_settled(
        g,
        #[trigger] b.assigns@[k],
    ) by {
        assert(assign_settled(y, b.assigns@[k]));
    }
    lemma_merge_assigns_settled(g, b.assigns@);
    // the closed events give `g` back
    lemma_merge_closeds_closed_form(g, b.closeds@);
    assert(merge_closeds(g, b.closeds@) == g);
    // and the pull requests are settled in `g`
    lemma_merge_pulls_settled(g, b.pulls@);
}

// ---------------------------------------------------------------- opening

/// The record that an open event creates.
pub open spec fn opened_record(o: IssueOpen) -> IssueView {
    IssueView {
        issue_id: o.issue_id@,
        project_id: o.project_id@,
        title: o.issue_title@,
        description: o.issue_description@,
        creator: o.issue_creator@,
        main_language: Seq::empty(),
        repo_stars: 0,
        budget: None,
        assignees: None,
        linked_pr: None,
        tracker_status: None,
        review_status: ReviewStatus::Queue,
        budget_approved: false,
        date_assigned: None,
        date_approved: None,
        date_declined: None,
        date_budget_approved: None,
        last_comment_time: None,
        last_comment_author: Seq::empty(),
        last_comment_body: Seq::empty(),
    }
}

/// An open event can be merged: it names an issue and a repository.
pub open spec fn open_is_valid(o: IssueOpen) -> bool {
    o.issue_id@.len() > 0 && o.project_id@.len() > 0
}

pub open spec fn merge_opens(rs: Seq<IssueView>, os: Seq<IssueOpen>) -> Seq<IssueView>
    decreases os.len(),
{
    if os.len() == 0 {
        rs
    } else {
        let before = merge_opens(rs, os.drop_last());
        let o = os.last();
        if !open_is_valid(o) || has_issue(before, o.issue_id@) {
            before
        } else {
            before.push(opened_record(o))
        }
    }
}

proof fn lemma_merge_opens_grows(rs: Seq<IssueView>, os: Seq<IssueOpen>)
    ensures
        merge_opens(rs, os).len() >= rs.len(),
        forall|i: int| 0 <= i < rs.len() ==> #[trigger] merge_opens(rs, os)[i] == rs[i],
        forall|k: int|
            0 <= k < os.len() && open_is_valid(#[trigger] os[k]) ==> has_issue(
                merge_opens(rs, os),
                os[k].issue_id@,
            ),
    decreases os.len(),
{
    if os.len() > 0 {
        let before = merge_opens(rs, os.drop_last());
        lemma_merge_opens_grows(rs, os.drop_last());
        assert forall|k: int| 0 <= k < os.len() && open_is_valid(#[trigger] os[k]) implies has_issue(
            merge_opens(rs, os),
            os[k].issue_id@,
        ) by {
            let after = merge_opens(rs, os);
            if k < os.len() - 1 {
                assert(os.drop_last()[k] == os[k]);
                let j = choose|j: int| 0 <= j < before.len() && #[trigger] before[j].issue_id == os[k].issue_id@;
                assert(after[j] == before[j]);
            } else if !has_issue(before, os.last().issue_id@) {
                assert(after[before.len() as int].issue_id == os[k].issue_id@);
            }
        }
    }
}

proof fn lemma_merge_opens_settled(rs: Seq<IssueView>, os: Seq<IssueOpen>)
    requires
        forall|k: int| 0 <= k < os.len() && open_is_valid(#[trigger] os[k]) ==> has_issue(rs, os[k].issue_id@),
    ensures
        merge_opens(rs, os) == rs,
    decreases os.len(),
{
    if os.len() > 0 {
        assert forall|k: int|
            0 <= k < os.drop_last().len() && open_is_valid(#[trigger] os.drop_last()[k]) implies has_issue(
            rs,
            os.drop_last()[k].issue_id@,
        ) by {
            assert(os.drop_last()[k] == os[k]);
        }
        lemma_merge_opens_settled(rs, os.drop_last());
        if open_is_valid(os.last()) {
            assert(open_is_valid(os[os.len() - 1]));
        }
    }
}

// ---------------------------------------------------------------- the batch

/// The master records after a batch: open events first, then each record
/// merged with the comment, closed and pull-request events.
pub open spec fn consolidated(rs: Seq<IssueView>, b: StagedBatch) -> Seq<IssueView> {
    merge_opens(rs, b.opens@).map_values(|r: IssueView| merge_record(r, b))
}

/// Consolidating the same staged events twice gives the records that
/// consolidating them once gives.
pub proof fn lemma_consolidation_idempotent(rs: Seq<IssueView>, b: StagedBatch)
    ensures
        consolidated(consolidated(rs, b), b) == consolidated(rs, b),
{
    let once = consolidated(rs, b);
    let opened = merge_opens(rs, b.opens@);
    lemma_merge_opens_grows(rs, b.opens@);
    assert forall|k: int| 0 <= k < b.opens@.len() && open_is_valid(#[trigger] b.opens@[k]) implies has_issue(
        once,
        b.opens@[k].issue_id@,
    ) by {
        let j = choose|j: int| 0 <= j < opened.len() && #[trigger] opened[j].issue_id == b.opens@[k].issue_id@;
        lemma_merge_record_keeps_id(opened[j], b);
        assert(once[j].issue_id == opened[j].issue_id);
    }
    lemma_merge_opens_settled(once, b.opens@);
    assert forall|i: int| 0 <= i < once.len() implies #[trigger] merge_record(once[i], b)
        == once[i] by {
        lemma_merge_record_idempotent(opened[i], b);
    }
    assert(consolidated(once, b) =~= once);
}


// ---------------------------------------------------------------- the review fields

/// The review fields of a record: budget, review status and approval.
pub open spec fn review_fields(r: IssueView) -> (Option<u32>, ReviewStatus, bool) {
    (r.budget, r.review_status, r.budget_approved)
}

proof fn lemma_merges_keep_review(r: IssueView, b: StagedBatch)
    ensures
        review_fields(merge_comments(r, b.comments@)) == review_fields(r),
        review_fields(merge_closeds(r, b.closeds@)) == review_fields(r),
        review_fields(merge_pulls(r, b.pulls@)) == review_fields(r),
        review_fields(merge_record(r, b)) == review_fields(r),
{
    lemma_comments_keep_review(r, b.comments@);
    lemma_merge_closeds_closed_form(r, b.closeds@);
    lemma_pulls_keep_review(r, b.pulls@);
    let a = merge_comments(r, b.comments@);
    lemma_merge_assigns_shape(a, b.assigns@);
    let y = merge_assigns(a, b.assigns@);
    lemma_merge_closeds_closed_form(y, b.closeds@);
    lemma_pulls_keep_review(merge_closeds(y, b.closeds@), b.pulls@);
}

proof fn lemma_comments_keep_review(r: IssueView, es: Seq<IssueComment>)
    ensures
        review_fields(merge_comments(r, es)) == review_fields(r),
    decreases es.len(),
{
    if es.len() > 0 {
        lemma_comments_keep_review(r, es.drop_last());
    }
}

proof fn lemma_pulls_keep_review(r: IssueView, ps: Seq<OuterPull>)
    ensures
        review_fields(merge_pulls(r, ps)) == review_fields(r),
    decreases ps.len(),
{
    if ps.len() > 0 {
        lemma_pulls_keep_review(r, ps.drop_last());
    }
}

proof fn lemma_opens_keep_invariant(rs: Seq<IssueView>, os: Seq<IssueOpen>)
    requires
        all_issues_wf(rs),
    ensures
        all_issues_wf(merge_opens(rs, os)),
    decreases os.len(),
{
    if os.len() > 0 {
        lemma_opens_keep_invariant(rs, os.drop_last());
        let before = merge_opens(rs, os.drop_last());
        assert forall|i: int| 0 <= i < merge_opens(rs, os).len() implies issue_wf(
            #[trigger] merge_opens(rs, os)[i],
        ) by {
            if i < before.len() {
                assert(merge_opens(rs, os)[i] == before[i]);
            }
        }
    }
}

/// Consolidation keeps the record invariant: merging staged events never sets
/// an approval, a budget or a review status, so a collection whose approved
/// budgets are set budgets under approved reviews stays so.
pub proof fn lemma_consolidation_keeps_invariant(rs: Seq<IssueView>, b: StagedBatch)
    requires
        all_issues_wf(rs),
    ensures
        all_issues_wf(consolidated(rs, b)),
{
    let opened = merge_opens(rs, b.opens@);
    lemma_opens_keep_invariant(rs, b.opens@);
    assert forall|i: int| 0 <= i < consolidated(rs, b).len() implies issue_wf(
        #[trigger] consolidated(rs, b)[i],
    ) by {
        lemma_merges_keep_review(opened[i], b);
    }
}

proof fn lemma_opens_keep_ids_unique(rs: Seq<IssueView>, os: Seq<IssueOpen>)
    requires
        ids_unique(rs),
    ensures
        ids_unique(merge_opens(rs, os)),
    decreases os.len(),
{
    if os.len() > 0 {
        lemma_opens_keep_ids_unique(rs, os.drop_last());
        let before = merge_opens(rs, os.drop_last());
        let o = os.last();
        if open_is_valid(o) && !has_issue(before, o.issue_id@) {
            let after = before.push(opened_record(o));
            assert forall|i: int, j: int|
                0 <= i < after.len() && 0 <= j < after.len() && i != j implies #[trigger] after[i].issue_id
                    != #[trigger] after[j].issue_id by {
                if i == before.len() {
                    assert(before[j].issue_id != o.issue_id@);
                } else if j == before.len() {
                    assert(before[i].issue_id != o.issue_id@);
                }
            }
        }
    }
}

proof fn lemma_merge_record_keeps_id(r: IssueView, b: StagedBatch)
    ensures
        merge_record(r, b).issue_id == r.issue_id,
{
    lemma_merge_comments_progress(r, b.comments@);
    let a = merge_comments(r, b.comments@);
    lemma_merge_assigns_shape(a, b.assigns@);
    let y = merge_assigns(a, b.assigns@);
    lemma_merge_closeds_closed_form(y, b.closeds@);
    lemma_merge_pulls_progress(merge_closeds(y, b.closeds@), b.pulls@);
}

/// Consolidation keeps one record per issue: a record is created only for an
/// issue that has none, and merging never changes an issue id.
pub proof fn lemma_consolidation_keeps_ids_unique(rs: Seq<IssueView>, b: StagedBatch)
    requires
        ids_unique(rs),
    ensures
        ids_unique(consolidated(rs, b)),
        consolidated(rs, b).len() >= rs.len(),
        forall|i: int| 0 <= i < rs.len() ==> #[trigger] consolidated(rs, b)[i].issue_id == rs[i].issue_id,
{
    let opened = merge_opens(rs, b.opens@);
    let c = consolidated(rs, b);
    lemma_opens_keep_ids_unique(rs, b.opens@);
    lemma_merge_opens_grows(rs, b.opens@);
    assert forall|i: int| 0 <= i < c.len() implies #[trigger] c[i].issue_id == opened[i].issue_id by {
        lemma_merge_record_keeps_id(opened[i], b);
    }
    assert forall|i: int, j: int|
        0 <= i < c.len() && 0 <= j < c.len() && i != j implies #[trigger] c[i].issue_id
            != #[trigger] c[j].issue_id by {
        assert(c[i].issue_id == opened[i].issue_id);
        assert(c[j].issue_id == opened[j].issue_id);
    }
    assert forall|i: int| 0 <= i < rs.len() implies #[trigger] c[i].issue_id == rs[i].issue_id by {
        assert(c[i].issue_id == opened[i].issue_id);
        assert(opened[i] == rs[i]);
    }
}

// ---------------------------------------------------------------- executable

fn apply_comment(r: &mut IssueRecord, e: &IssueComment)
    ensures
        final(r)@ == merge_comment(old(r)@, *e),
{
    if !text_eq(r.issue_id.as_str(), e.issue_id.as_str()) {
        return ;
    }
    let newer = match r.last_comment_time {
        None => true,
        Some(t) => e.comment_date > t,
    };
    let recorded = match &r.assignees {
        Some(v) => v.len() > 0,
        None => false,
    };
    match &e.assignees {
        Some(v) => {
            if v.len() > 0 && (!recorded || newer) {
                r.assignees = Some(copy_names(v));
                if r.date_assigned.is_none() {
                    r.date_assigned = Some(e.comment_date);
                }
            }
        },
        None => {},
    }
    if newer {
        r.last_comment_time = Some(e.comment_date);
        r.last_comment_author = e.comment_creator.clone();
        r.last_comment_body = e.comment_body.clone();
    }
}

fn apply_assigned(r: &mut IssueRecord, e: &IssueAssigned)
    ensures
        final(r)@ == merge_assign(old(r)@, *e),
{
    if !text_eq(r.issue_id.as_str(), e.issue_id.as_str()) || e.issue_assignee.as_str().unicode_len()
        == 0 {
        return ;
    }
    let recorded = match &r.assignees {
        Some(v) => v.len() > 0,
        None => false,
    };
    if !recorded {
        let mut v: Vec<String> = Vec::new();
        v.push(e.issue_assignee.clone());
        proof {
            assert(crate::records::texts(v@) =~= seq![e.issue_assignee@]);
        }
        r.assignees = Some(v);
        if r.date_assigned.is_none() {
            r.date_assigned = Some(e.date_assigned);
        }
    }
}

fn apply_closed(r: &mut IssueRecord, c: &IssueClosed)
    ensures
        final(r)@ == merge_closed(old(r)@, *c),
{
    if !text_eq(r.issue_id.as_str(), c.issue_id.as_str()) {
        return ;
    }
    match &c.issue_assignees {
        Some(v) => {
            if v.len() > 0 {
                r.assignees = Some(copy_names(v));
            }
        },
        None => {},
    }
    if r.linked_pr.is_none() {
        match &c.issue_linked_pr {
            Some(pr) => {
                r.linked_pr = Some(pr.clone());
            },
            None => {},
        }
    }
}

/// Whether the list holds the text.
pub fn names_contain(v: &Vec<String>, s: &str) -> (r: bool)
    ensures
        r == texts(v@).contains(s@),
{
    let mut i: usize = 0;
    while i < v.len()
        invariant
            i <= v.len(),
            forall|k: int| 0 <= k < i ==> v@[k]@ != s@,
        decreases v.len() - i,
    {
        if text_eq(v[i].as_str(), s) {
            proof {
                assert(texts(v@)[i as int] == s@);
            }
            return true;
        }
        i = i + 1;
    }
    proof {
        if texts(v@).contains(s@) {
            let k = choose|k: int| 0 <= k < texts(v@).len() && texts(v@)[k] == s@;
            assert(v@[k]@ == s@);
        }
    }
    false
}

fn apply_pull(r: &mut IssueRecord, p: &OuterPull)
    ensures
        final(r)@ == merge_pull(old(r)@, *p),
{
    if !names_contain(&p.connected_issues, r.issue_id.as_str()) {
        return ;
    }
    let recorded = match &r.assignees {
        Some(v) => v.len() > 0,
        None => false,
    };
    if !recorded {
        match &p.pull_author {
            Some(a) => {
                let mut v: Vec<String> = Vec::new();
                v.push(a.clone());
                proof {
                    assert(texts(v@) =~= seq![a@]);
                }
                r.assignees = Some(v);
            },
            None => {},
        }
    }
    if r.linked_pr.is_none() {
        r.linked_pr = Some(p.pull_id.clone());
    }
}

fn apply_batch_to_record(r: &mut IssueRecord, b: &StagedBatch)
    ensures
        final(r)@ == merge_record(old(r)@, *b),
{
    let mut i: usize = 0;
    while i < b.comments.len()
        invariant
            i <= b.comments.len(),
            r@ == merge_comments(old(r)@, b.comments@.take(i as int)),
        decreases b.comments.len() - i,
    {
        proof {
            assert(b.comments@.take(i as int + 1).drop_last() =~= b.comments@.take(i as int));
        }
        apply_comment(r, &b.comments[i]);
        i = i + 1;
    }
    proof {
        assert(b.comments@.take(b.comments@.len() as int) =~= b.comments@);
    }
    let ghost after_comments = r@;
    let mut i: usize = 0;
    while i < b.assigns.len()
        invariant
            i <= b.assigns.len(),
            r@ == merge_assigns(after_comments, b.assigns@.take(i as int)),
        decreases b.assigns.len() - i,
    {
        proof {
            assert(b.assigns@.take(i as int + 1).drop_last() =~= b.assigns@.take(i as int));
        }
        apply_assigned(r, &b.assigns[i]);
        i = i + 1;
    }
    proof {
        assert(b.assigns@.take(b.assigns@.len() as int) =~= b.assigns@);
    }
    let ghost after_assigns = r@;
    let mut i: usize = 0;
    while i < b.closeds.len()
        invariant
            i <= b.closeds.len(),
            r@ == merge_closeds(after_assigns, b.closeds@.take(i as int)),
        decreases b.closeds.len() - i,
    {
        proof {
            assert(b.closeds@.take(i as int + 1).drop_last() =~= b.closeds@.take(i as int));
        }
        apply_closed(r, &b.closeds[i]);
        i = i + 1;
    }
    proof {
        assert(b.closeds@.take(b.closeds@.len() as int) =~= b.closeds@);
    }
    let ghost after_closeds = r@;
    let mut i: usize = 0;
    while i < b.pulls.len()
        invariant
            i <= b.pulls.len(),
            r@ == merge_pulls(after_closeds, b.pulls@.take(i as int)),
        decreases b.pulls.len() - i,
    {
        proof {
            assert(b.pulls@.take(i as int + 1).drop_last() =~= b.pulls@.take(i as int));
        }
        apply_pull(r, &b.pulls[i]);
        i = i + 1;
    }
    proof {
        assert(b.pulls@.take(b.pulls@.len() as int) =~= b.pulls@);
    }
}

fn record_from_open(o: &IssueOpen) -> (r: IssueRecord)
    ensures
        r@ == opened_record(*o),
{
    IssueRecord {
        issue_id: o.issue_id.clone(),
        project_id: o.project_id.clone(),
        title: o.issue_title.clone(),
        description: o.issue_description.clone(),
        creator: o.issue_creator.clone(),
        main_language: String::new(),
        repo_stars: 0,
        budget: None,
        assignees: None,
        linked_pr: None,
        tracker_status: None,
        review_status: ReviewStatus::Queue,
        budget_approved: false,
        date_assigned: None,
        date_approved: None,
        date_declined: None,
        date_budget_approved: None,
        last_comment_time: None,
        last_comment_author: String::new(),
        last_comment_body: String::new(),
    }
}

/// Merges a batch of staged events into the master records.
pub fn consolidate(rs: &mut Vec<IssueRecord>, b: &StagedBatch)
    ensures
        issue_views(final(rs)@) == consolidated(issue_views(old(rs)@), *b),
{
    let ghost start = issue_views(rs@);
    let mut i: usize = 0;
    while i < b.opens.len()
        invariant
            i <= b.opens.len(),
            issue_views(rs@) == merge_opens(start, b.opens@.take(i as int)),
        decreases b.opens.len() - i,
    {
        let o = &b.opens[i];
        proof {
            assert(b.opens@.take(i as int + 1).drop_last() =~= b.opens@.take(i as int));
            lemma_issue_pos(issue_views(rs@), o.issue_id@);
        }
        if o.issue_id.as_str().unicode_len() > 0 && o.project_id.as_str().unicode_len() > 0 {
            if find_issue(rs, o.issue_id.as_str()).is_none() {
                let ghost before = rs@;
                rs.push(record_from_open(o));
                proof {
                    assert(issue_views(rs@) =~= issue_views(before).push(opened_record(*o)));
                }
            }
        }
        i = i + 1;
    }
    proof {
        assert(b.opens@.take(b.opens@.len() as int) =~= b.opens@);
    }
    let ghost opened = issue_views(rs@);
    let mut j: usize = 0;
    while j < rs.len()
        invariant
            j <= rs.len() == opened.len(),
            forall|k: int| 0 <= k < j ==> #[trigger] issue_views(rs@)[k] == merge_record(opened[k], *b),
            forall|k: int| j <= k < rs.len() ==> #[trigger] issue_views(rs@)[k] == opened[k],
        decreases rs.len() - j,
    {
        let ghost before = rs@;
        apply_batch_to_record(&mut rs[j], b);
        proof {
            assert forall|k: int| 0 <= k < rs.len() && k != j implies #[trigger] issue_views(rs@)[k]
                == issue_views(before)[k] by {
                assert(rs@[k] == before[k]);
            }
            assert(issue_views(rs@)[j as int] == rs@[j as int]@);
            assert(issue_views(before)[j as int] == before[j as int]@);
        }
        j = j + 1;
    }
    proof {
        assert(issue_views(rs@) =~= opened.map_values(|r: IssueView| merge_record(r, *b)));
    }
}

} // verus!
