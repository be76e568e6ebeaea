//! Administrative transitions of an issue's review: approving a budget,
//! declining, and concluding (marking the approved budget as earned).
use vstd::prelude::*;

use crate::records::{
    all_issues_wf, find_issue, issue_pos, issue_views, issue_wf, lemma_issue_pos, texts, IssueRecord,
    IssueView, ReviewStatus,
};

verus! {

/// Why an administrative transition was not applied.
#[derive(Clone, Copy, Debug, PartialEq, Eq, Structural)]
pub enum ReviewError {
    /// No record has the issue id.
    NotFound,
    /// The transition would break the review rules.
    Rejected,
}

pub open spec fn coalesce<T>(cur: Option<T>, new: Option<T>) -> Option<T> {
    if cur is Some {
        cur
    } else {
        new
    }
}

/// A budget may be approved while the review is neither declined nor concluded.
pub open spec fn can_approve(r: IssueView) -> bool {
    r.review_status != ReviewStatus::Decline && !r.budget_approved
}

pub open spec fn approved(r: IssueView, budget: u32, now: u64) -> IssueView {
    IssueView {
        budget: Some(budget),
        review_status: ReviewStatus::Approve,
        date_approved: coalesce(r.date_approved, Some(now)),
        ..r
    }
}

/// An issue may be declined until its budget has been concluded.
pub open spec fn can_decline(r: IssueView) -> bool {
    !r.budget_approved
}

pub open spec fn declined(r: IssueView, now: u64) -> IssueView {
    IssueView {
        budget: None,
        review_status: ReviewStatus::Decline,
        date_declined: coalesce(r.date_declined, Some(now)),
        ..r
    }
}

/// A budget may be concluded once it is set and approved.
pub open spec fn can_conclude(r: IssueView) -> bool {
    r.budget is Some && r.review_status == ReviewStatus::Approve
}

pub open spec fn concluded(r: IssueView, now: u64) -> IssueView {
    IssueView {
        budget_approved: true,
        date_budget_approved: coalesce(r.date_budget_approved, Some(now)),
        ..r
    }
}

/// What a transition does to a collection of records: the outcome and the records after it.
pub open spec fn transition_result(
    rs: Seq<IssueView>,
    id: Seq<char>,
    allowed: spec_fn(IssueView) -> bool,
    apply: spec_fn(IssueView) -> IssueView,
) -> (Result<(), ReviewError>, Seq<IssueView>) {
    match issue_pos(rs, id) {
        None => (Err(ReviewError::NotFound), rs),
        Some(p) => if allowed(rs[p]) {
            (Ok(()), rs.update(p, apply(rs[p])))
        } else {
            (Err(ReviewError::Rejected), rs)
        },
    }
}

fn approve_in_place(r: &mut IssueRecord, budget: u32, now: u64)
    ensures
        final(r)@ == approved(old(r)@, budget, now),
{
    r.budget = Some(budget);
    r.review_status = ReviewStatus::Approve;
    if r.date_approved.is_none() {
        r.date_approved = Some(now);
    }
}

fn decline_in_place(r: &mut IssueRecord, now: u64)
    ensures
        final(r)@ == declined(old(r)@, now),
{
    r.budget = None;
    r.review_status = ReviewStatus::Decline;
    if r.date_declined.is_none() {
        r.date_declined = Some(now);
    }
}

fn conclude_in_place(r: &mut IssueRecord, now: u64)
    ensures
        final(r)@ == concluded(old(r)@, now),
{
    r.budget_approved = true;
    if r.date_budget_approved.is_none() {
        r.date_budget_approved = Some(now);
    }
}

/// Sets the budget of an issue and approves its review.
///
/// Fails with `NotFound` when no record has the id, and with `Rejected` when
/// the review was declined or the budget already concluded.
pub fn assign_issue_budget_in_db(rs: &mut Vec<IssueRecord>, issue_id: &str, budget: u32, now: u64) -> (r:
    Result<(), ReviewError>)
    ensures
        (r, issue_views(final(rs)@)) == transition_result(
            issue_views(old(rs)@),
            issue_id@,
            |v: IssueView| can_approve(v),
            |v: IssueView| approved(v, budget, now),
        ),
{
    let ghost vs = issue_views(rs@);
    match find_issue(rs, issue_id) {
        None => Err(ReviewError::NotFound),
        Some(p) => {
            proof {
                lemma_issue_pos(vs, issue_id@);
            }
            if rs[p].review_status == ReviewStatus::Decline || rs[p].budget_approved {
                Err(ReviewError::Rejected)
            } else {
                approve_in_place(&mut rs[p], budget, now);
                proof {
                    assert(issue_views(rs@) =~= vs.update(p as int, rs@[p as int]@));
                }
                Ok(())
            }
        },
    }
}

/// Declines the review of an issue and clears its budget.
///
/// Fails with `NotFound` when no record has the id, and with `Rejected` when
/// the budget of the issue was already concluded.
pub fn decline_issue_in_db(rs: &mut Vec<IssueRecord>, issue_id: &str, now: u64) -> (r: Result<
    (),
    ReviewError,
>)
    ensures
        (r, issue_views(final(rs)@)) == transition_result(
            issue_views(old(rs)@),
            issue_id@,
            |v: IssueView| can_decline(v),
            |v: IssueView| declined(v, now),
        ),
{
    let ghost vs = issue_views(rs@);
    match find_issue(rs, issue_id) {
        None => Err(ReviewError::NotFound),
        Some(p) => {
            proof {
                lemma_issue_pos(vs, issue_id@);
            }
            if rs[p].budget_approved {
                Err(ReviewError::Rejected)
            } else {
                decline_in_place(&mut rs[p], now);
                proof {
                    assert(issue_views(rs@) =~= vs.update(p as int, rs@[p as int]@));
                }
                Ok(())
            }
        },
    }
}

/// Marks the approved budget of an issue as earned.
///
/// Fails with `NotFound` when no record has the id, and with `Rejected` when
/// the issue has no budget or its review is not approved.
pub fn conclude_issue_in_db(rs: &mut Vec<IssueRecord>, issue_id: &str, now: u64) -> (r: Result<
    (),
    ReviewError,
>)
    ensures
        (r, issue_views(final(rs)@)) == transition_result(
            issue_views(old(rs)@),
            issue_id@,
            |v: IssueView| can_conclude(v),
            |v: IssueView| concluded(v, now),
        ),
{
    let ghost vs = issue_views(rs@);
    match find_issue(rs, issue_id) {
        None => Err(ReviewError::NotFound),
        Some(p) => {
            proof {
                lemma_issue_pos(vs, issue_id@);
            }
            if rs[p].budget.is_none() || rs[p].review_status != ReviewStatus::Approve {
                Err(ReviewError::Rejected)
            } else {
                conclude_in_place(&mut rs[p], now);
                proof {
                    assert(issue_views(rs@) =~= vs.update(p as int, rs@[p as int]@));
                }
                Ok(())
            }
        },
    }
}

/// Each transition keeps the record invariant: an approved budget is never
/// left without a budget or outside an approved review.
pub proof fn lemma_transitions_keep_invariant(r: IssueView, budget: u32, now: u64)
    requires
        issue_wf(r),
    ensures
        can_approve(r) ==> issue_wf(approved(r, budget, now)),
        can_decline(r) ==> issue_wf(declined(r, now)),
        can_conclude(r) ==> issue_wf(concluded(r, now)),
{
}

/// Over a whole collection: whichever transition is applied, a collection whose
/// records keep the invariant still keeps it afterwards.
pub proof fn lemma_collection_keeps_invariant(
    rs: Seq<IssueView>,
    id: Seq<char>,
    budget: u32,
    now: u64,
)
    requires
        all_issues_wf(rs),
    ensures
        all_issues_wf(
            transition_result(
                rs,
                id,
                |v: IssueView| can_approve(v),
                |v: IssueView| approved(v, budget, now),
            ).1,
        ),
        all_issues_wf(
            transition_result(rs, id, |v: IssueView| can_decline(v), |v: IssueView| declined(v, now)).1,
        ),
        all_issues_wf(
            transition_result(
                rs,
                id,
                |v: IssueView| can_conclude(v),
                |v: IssueView| concluded(v, now),
            ).1,
        ),
{
    lemma_issue_pos(rs, id);
    if let Some(p) = issue_pos(rs, id) {
        lemma_transitions_keep_invariant(rs[p], budget, now);
        assert forall|i: int| 0 <= i < rs.len() implies issue_wf(
            #[trigger] rs.update(p, approved(rs[p], budget, now))[i],
        ) by {
            if i == p {
            }
        }
    }
}

/// Declining each id in turn: the records afterwards, and the ids whose
/// decline failed, in order.
pub open spec fn batch_declined(rs: Seq<IssueView>, ids: Seq<Seq<char>>, now: u64) -> (
    Seq<IssueView>,
    Seq<Seq<char>>,
)
    decreases ids.len(),
{
    if ids.len() == 0 {
        (rs, Seq::empty())
    } else {
        let before = batch_declined(rs, ids.drop_last(), now);
        let step = transition_result(
            before.0,
            ids.last(),
            |v: IssueView| can_decline(v),
            |v: IssueView| declined(v, now),
        );
        (step.1, if step.0 is Ok {
            before.1
        } else {
            before.1.push(ids.last())
        })
    }
}

/// Declines each issue in turn; returns the ids that could not be declined.
pub fn decline_issues_batch_in_db(rs: &mut Vec<IssueRecord>, issue_ids: &Vec<String>, now: u64) -> (r: Vec<
    String,
>)
    requires
        all_issues_wf(issue_views(old(rs)@)),
    ensures
        (issue_views(final(rs)@), texts(r@)) == batch_declined(
            issue_views(old(rs)@),
            texts(issue_ids@),
            now,
        ),
        all_issues_wf(issue_views(final(rs)@)),
{
    let ghost ids = texts(issue_ids@);
    let mut failed: Vec<String> = Vec::new();
    let mut i: usize = 0;
    proof {
        assert(ids.take(0) =~= Seq::<Seq<char>>::empty());
        assert(texts(failed@) =~= Seq::<Seq<char>>::empty());
    }
    while i < issue_ids.len()
        invariant
            i <= issue_ids.len(),
            ids == texts(issue_ids@),
            all_issues_wf(issue_views(rs@)),
            (issue_views(rs@), texts(failed@)) == batch_declined(
                issue_views(old(rs)@),
                ids.take(i as int),
                now,
            ),
        decreases issue_ids.len() - i,
    {
        let ghost before = issue_views(rs@);
        let res = decline_issue_in_db(rs, issue_ids[i].as_str(), now);
        proof {
            lemma_collection_keeps_invariant(before, issue_ids@[i as int]@, 0, now);
            assert(ids.take(i as int + 1).drop_last() =~= ids.take(i as int));
        }
        if res.is_err() {
            let ghost f0 = failed@;
            failed.push(issue_ids[i].clone());
            proof {
                assert(texts(failed@) =~= texts(f0).push(issue_ids@[i as int]@));
            }
        }
        i = i + 1;
    }
    proof {
        assert(ids.take(issue_ids@.len() as int) =~= ids);
    }
    failed
}


/// Concluding each id in turn: the records afterwards, and the ids whose
/// conclusion failed, in order.
pub open spec fn batch_concluded(rs: Seq<IssueView>, ids: Seq<Seq<char>>, now: u64) -> (
    Seq<IssueView>,
    Seq<Seq<char>>,
)
    decreases ids.len(),
{
    if ids.len() == 0 {
        (rs, Seq::empty())
    } else {
        let before = batch_concluded(rs, ids.drop_last(), now);
        let step = transition_result(
            before.0,
            ids.last(),
            |v: IssueView| can_conclude(v),
            |v: IssueView| concluded(v, now),
        );
        (step.1, if step.0 is Ok {
            before.1
        } else {
            before.1.push(ids.last())
        })
    }
}

/// Concludes each issue in turn; returns the ids that could not be concluded.
pub fn conclude_issues_batch_in_db(rs: &mut Vec<IssueRecord>, issue_ids: &Vec<String>, now: u64) -> (r: Vec<
    String,
>)
    requires
        all_issues_wf(issue_views(old(rs)@)),
    ensures
        (issue_views(final(rs)@), texts(r@)) == batch_concluded(
            issue_views(old(rs)@),
            texts(issue_ids@),
            now,
        ),
        all_issues_wf(issue_views(final(rs)@)),
{
    let ghost ids = texts(issue_ids@);
    let mut failed: Vec<String> = Vec::new();
    let mut i: usize = 0;
    proof {
        assert(ids.take(0) =~= Seq::<Seq<char>>::empty());
        assert(texts(failed@) =~= Seq::<Seq<char>>::empty());
    }
    while i < issue_ids.len()
        invariant
            i <= issue_ids.len(),
            ids == texts(issue_ids@),
            all_issues_wf(issue_views(rs@)),
            (issue_views(rs@), texts(failed@)) == batch_concluded(
                issue_views(old(rs)@),
                ids.take(i as int),
                now,
            ),
        decreases issue_ids.len() - i,
    {
        let ghost before = issue_views(rs@);
        let res = conclude_issue_in_db(rs, issue_ids[i].as_str(), now);
        proof {
            lemma_collection_keeps_invariant(before, issue_ids@[i as int]@, 0, now);
            assert(ids.take(i as int + 1).drop_last() =~= ids.take(i as int));
        }
        if res.is_err() {
            let ghost f0 = failed@;
            failed.push(issue_ids[i].clone());
            proof {
                assert(texts(failed@) =~= texts(f0).push(issue_ids@[i as int]@));
            }
        }
        i = i + 1;
    }
    proof {
        assert(ids.take(issue_ids@.len() as int) =~= ids);
    }
    failed
}

} // verus!
