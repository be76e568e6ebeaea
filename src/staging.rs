//! The staging store: raw events keyed by their natural id. A later event
//! with the same key updates a field only with a value that is set, so a stale
//! or partial event never clears what an earlier one brought.
use vstd::prelude::*;

use crate::events::{IssueAssigned, IssueClosed, IssueComment, IssueOpen, OuterPull, StagedBatch};
use crate::records::{find_issue, has_issue, is_assigned, issue_views, lemma_issue_pos, opt_texts, IssueRecord};
use crate::text::text_eq;

verus! {

/// The newer text when it is set (not empty), else the older one.
pub open spec fn newer_text(old: String, new: String) -> String {
    if new@.len() > 0 {
        new
    } else {
        old
    }
}

/// The newer value when it is set, else the older one.
pub open spec fn newer_opt<T>(old: Option<T>, new: Option<T>) -> Option<T> {
    if new is Some {
        new
    } else {
        old
    }
}

/// The newer list when it names someone, else the older one: an empty list
/// means no assignees and never replaces a list.
pub open spec fn newer_names(old: Option<Vec<String>>, new: Option<Vec<String>>) -> Option<Vec<String>> {
    if is_assigned(opt_texts(new)) {
        new
    } else {
        old
    }
}

fn pick_text(old: String, new: String) -> (r: String)
    ensures
        r == newer_text(old, new),
{
    if new.as_str().unicode_len() > 0 {
        new
    } else {
        old
    }
}

fn pick_names(old: Option<Vec<String>>, new: Option<Vec<String>>) -> (r: Option<Vec<String>>)
    ensures
        r == newer_names(old, new),
{
    let set = match &new {
        Some(v) => v.len() > 0,
        None => false,
    };
    if set {
        new
    } else {
        old
    }
}

// ---------------------------------------------------------------- opens

pub open spec fn upsert_open(old: IssueOpen, new: IssueOpen) -> IssueOpen {
    IssueOpen {
        node_id: newer_text(old.node_id, new.node_id),
        issue_title: newer_text(old.issue_title, new.issue_title),
        issue_id: old.issue_id,
        issue_creator: newer_text(old.issue_creator, new.issue_creator),
        issue_budget: if new.issue_budget != 0 {
            new.issue_budget
        } else {
            old.issue_budget
        },
        issue_description: newer_text(old.issue_description, new.issue_description),
        project_id: newer_text(old.project_id, new.project_id),
    }
}

/// The first row at or after `i` with the key.
pub open spec fn open_pos_from(rows: Seq<IssueOpen>, id: Seq<char>, i: int) -> Option<int>
    decreases rows.len() - i,
{
    if i < 0 || i >= rows.len() {
        None
    } else if rows[i].issue_id@ == id {
        Some(i)
    } else {
        open_pos_from(rows, id, i + 1)
    }
}

/// The open table after a put: the row with the key is updated field by
/// field, or the event is added.
pub open spec fn put_open_spec(rows: Seq<IssueOpen>, e: IssueOpen) -> Seq<IssueOpen> {
    match open_pos_from(rows, e.issue_id@, 0) {
        Some(i) => rows.update(i, upsert_open(rows[i], e)),
        None => rows.push(e),
    }
}

/// Stages an open event.
pub fn put_open(rows: &mut Vec<IssueOpen>, e: IssueOpen)
    ensures
        final(rows)@ == put_open_spec(old(rows)@, e),
{
    let mut i: usize = 0;
    while i < rows.len()
        invariant
            i <= rows.len(),
            rows@ == old(rows)@,
            open_pos_from(rows@, e.issue_id@, 0) == open_pos_from(rows@, e.issue_id@, i as int),
        decreases rows.len() - i,
    {
        if text_eq(rows[i].issue_id.as_str(), e.issue_id.as_str()) {
            let row = rows.remove(i);
            let IssueOpen {
                node_id,
                issue_title,
                issue_id: _,
                issue_creator,
                issue_budget,
                issue_description,
                project_id,
            } = e;
            let merged = IssueOpen {
                node_id: pick_text(row.node_id, node_id),
                issue_title: pick_text(row.issue_title, issue_title),
                issue_id: row.issue_id,
                issue_creator: pick_text(row.issue_creator, issue_creator),
                issue_budget: if issue_budget != 0 {
                    issue_budget
                } else {
                    row.issue_budget
                },
                issue_description: pick_text(row.issue_description, issue_description),
                project_id: pick_text(row.project_id, project_id),
            };
            rows.insert(i, merged);
            proof {
                assert(rows@ =~= old(rows)@.update(i as int, upsert_open(old(rows)@[i as int], e)));
            }
            return ;
        }
        i = i + 1;
    }
    rows.push(e);
}

// ---------------------------------------------------------------- assignments

pub open spec fn upsert_assigned(old: IssueAssigned, new: IssueAssigned) -> IssueAssigned {
    IssueAssigned {
        issue_id: old.issue_id,
        issue_assignee: newer_text(old.issue_assignee, new.issue_assignee),
        date_assigned: if new.date_assigned != 0 {
            new.date_assigned
        } else {
            old.date_assigned
        },
    }
}

pub open spec fn assigned_pos_from(rows: Seq<IssueAssigned>, id: Seq<char>, i: int) -> Option<int>
    decreases rows.len() - i,
{
    if i < 0 || i >= rows.len() {
        None
    } else if rows[i].issue_id@ == id {
        Some(i)
    } else {
        assigned_pos_from(rows, id, i + 1)
    }
}

pub open spec fn put_assigned_spec(rows: Seq<IssueAssigned>, e: IssueAssigned) -> Seq<IssueAssigned> {
    match assigned_pos_from(rows, e.issue_id@, 0) {
        Some(i) => rows.update(i, upsert_assigned(rows[i], e)),
        None => rows.push(e),
    }
}

/// Stages an assignment event.
pub fn put_assigned(rows: &mut Vec<IssueAssigned>, e: IssueAssigned)
    ensures
        final(rows)@ == put_assigned_spec(old(rows)@, e),
{
    let mut i: usize = 0;
    while i < rows.len()
        invariant
            i <= rows.len(),
            rows@ == old(rows)@,
            assigned_pos_from(rows@, e.issue_id@, 0) == assigned_pos_from(rows@, e.issue_id@, i as int),
        decreases rows.len() - i,
    {
        if text_eq(rows[i].issue_id.as_str(), e.issue_id.as_str()) {
            let row = rows.remove(i);
            let IssueAssigned { issue_id: _, issue_assignee, date_assigned } = e;
            let merged = IssueAssigned {
                issue_id: row.issue_id,
                issue_assignee: pick_text(row.issue_assignee, issue_assignee),
                date_assigned: if date_assigned != 0 {
                    date_assigned
                } else {
                    row.date_assigned
                },
            };
            rows.insert(i, merged);
            proof {
                assert(rows@ =~= old(rows)@.update(i as int, upsert_assigned(old(rows)@[i as int], e)));
            }
            return ;
        }
        i = i + 1;
    }
    rows.push(e);
}

// ---------------------------------------------------------------- closeds

pub open spec fn upsert_closed(old: IssueClosed, new: IssueClosed) -> IssueClosed {
    IssueClosed {
        issue_id: old.issue_id,
        issue_assignees: newer_names(old.issue_assignees, new.issue_assignees),
        issue_linked_pr: newer_opt(old.issue_linked_pr, new.issue_linked_pr),
    }
}

pub open spec fn closed_pos_from(rows: Seq<IssueClosed>, id: Seq<char>, i: int) -> Option<int>
    decreases rows.len() - i,
{
    if i < 0 || i >= rows.len() {
        None
    } else if rows[i].issue_id@ == id {
        Some(i)
    } else {
        closed_pos_from(rows, id, i + 1)
    }
}

pub open spec fn put_closed_spec(rows: Seq<IssueClosed>, e: IssueClosed) -> Seq<IssueClosed> {
    match closed_pos_from(rows, e.issue_id@, 0) {
        Some(i) => rows.update(i, upsert_closed(rows[i], e)),
        None => rows.push(e),
    }
}

/// Stages a closed event.
pub fn put_closed(rows: &mut Vec<IssueClosed>, e: IssueClosed)
    ensures
        final(rows)@ == put_closed_spec(old(rows)@, e),
{
    let mut i: usize = 0;
    while i < rows.len()
        invariant
            i <= rows.len(),
            rows@ == old(rows)@,
            closed_pos_from(rows@, e.issue_id@, 0) == closed_pos_from(rows@, e.issue_id@, i as int),
        decreases rows.len() - i,
    {
        if text_eq(rows[i].issue_id.as_str(), e.issue_id.as_str()) {
            let row = rows.remove(i);
            let IssueClosed { issue_id: _, issue_assignees, issue_linked_pr } = e;
            let merged = IssueClosed {
                issue_id: row.issue_id,
                issue_assignees: pick_names(row.issue_assignees, issue_assignees),
                issue_linked_pr: if issue_linked_pr.is_some() {
                    issue_linked_pr
                } else {
                    row.issue_linked_pr
                },
            };
            rows.insert(i, merged);
            proof {
                assert(rows@ =~= old(rows)@.update(i as int, upsert_closed(old(rows)@[i as int], e)));
            }
            return ;
        }
        i = i + 1;
    }
    rows.push(e);
}

// ---------------------------------------------------------------- comments

pub open spec fn upsert_comment(old: IssueComment, new: IssueComment) -> IssueComment {
    IssueComment {
        issue_id: old.issue_id,
        assignees: newer_names(old.assignees, new.assignees),
        comment_creator: newer_text(old.comment_creator, new.comment_creator),
        comment_date: old.comment_date,
        comment_body: newer_text(old.comment_body, new.comment_body),
    }
}

/// A comment row is keyed by its issue and its time.
pub open spec fn comment_pos_from(rows: Seq<IssueComment>, id: Seq<char>, date: u64, i: int) -> Option<
    int,
>
    decreases rows.len() - i,
{
    if i < 0 || i >= rows.len() {
        None
    } else if rows[i].issue_id@ == id && rows[i].comment_date == date {
        Some(i)
    } else {
        comment_pos_from(rows, id, date, i + 1)
    }
}

pub open spec fn put_comment_spec(rows: Seq<IssueComment>, e: IssueComment) -> Seq<IssueComment> {
    match comment_pos_from(rows, e.issue_id@, e.comment_date, 0) {
        Some(i) => rows.update(i, upsert_comment(rows[i], e)),
        None => rows.push(e),
    }
}

/// Stages a comment event.
pub fn put_comment(rows: &mut Vec<IssueComment>, e: IssueComment)
    ensures
        final(rows)@ == put_comment_spec(old(rows)@, e),
{
    let mut i: usize = 0;
    while i < rows.len()
        invariant
            i <= rows.len(),
            rows@ == old(rows)@,
            comment_pos_from(rows@, e.issue_id@, e.comment_date, 0) == comment_pos_from(
                rows@,
                e.issue_id@,
                e.comment_date,
                i as int,
            ),
        decreases rows.len() - i,
    {
        if rows[i].comment_date == e.comment_date && text_eq(
            rows[i].issue_id.as_str(),
            e.issue_id.as_str(),
        ) {
            let row = rows.remove(i);
            let IssueComment { issue_id: _, assignees, comment_creator, comment_date: _, comment_body } =
                e;
            let merged = IssueComment {
                issue_id: row.issue_id,
                assignees: pick_names(row.assignees, assignees),
                comment_creator: pick_text(row.comment_creator, comment_creator),
                comment_date: row.comment_date,
                comment_body: pick_text(row.comment_body, comment_body),
            };
            rows.insert(i, merged);
            proof {
                assert(rows@ =~= old(rows)@.update(i as int, upsert_comment(old(rows)@[i as int], e)));
            }
            return ;
        }
        i = i + 1;
    }
    rows.push(e);
}

// ---------------------------------------------------------------- pulls

pub open spec fn upsert_pull(old: OuterPull, new: OuterPull) -> OuterPull {
    OuterPull {
        pull_id: old.pull_id,
        pull_title: newer_text(old.pull_title, new.pull_title),
        pull_author: newer_opt(old.pull_author, new.pull_author),
        project_id: newer_text(old.project_id, new.project_id),
        merged_at: if new.merged_at != 0 {
            new.merged_at
        } else {
            old.merged_at
        },
        connected_issues: if new.connected_issues@.len() > 0 {
            new.connected_issues
        } else {
            old.connected_issues
        },
    }
}

pub open spec fn pull_pos_from(rows: Seq<OuterPull>, id: Seq<char>, i: int) -> Option<int>
    decreases rows.len() - i,
{
    if i < 0 || i >= rows.len() {
        None
    } else if rows[i].pull_id@ == id {
        Some(i)
    } else {
        pull_pos_from(rows, id, i + 1)
    }
}

pub open spec fn put_pull_spec(rows: Seq<OuterPull>, e: OuterPull) -> Seq<OuterPull> {
    match pull_pos_from(rows, e.pull_id@, 0) {
        Some(i) => rows.update(i, upsert_pull(rows[i], e)),
        None => rows.push(e),
    }
}

/// Stages a pull-request event.
pub fn put_pull(rows: &mut Vec<OuterPull>, e: OuterPull)
    ensures
        final(rows)@ == put_pull_spec(old(rows)@, e),
{
    let mut i: usize = 0;
    while i < rows.len()
        invariant
            i <= rows.len(),
            rows@ == old(rows)@,
            pull_pos_from(rows@, e.pull_id@, 0) == pull_pos_from(rows@, e.pull_id@, i as int),
        decreases rows.len() - i,
    {
        if text_eq(rows[i].pull_id.as_str(), e.pull_id.as_str()) {
            let row = rows.remove(i);
            let OuterPull { pull_id: _, pull_title, pull_author, project_id, merged_at, connected_issues } =
                e;
            let merged = OuterPull {
                pull_id: row.pull_id,
                pull_title: pick_text(row.pull_title, pull_title),
                pull_author: if pull_author.is_some() {
                    pull_author
                } else {
                    row.pull_author
                },
                project_id: pick_text(row.project_id, project_id),
                merged_at: if merged_at != 0 {
                    merged_at
                } else {
                    row.merged_at
                },
                connected_issues: if connected_issues.len() > 0 {
                    connected_issues
                } else {
                    row.connected_issues
                },
            };
            rows.insert(i, merged);
            proof {
                assert(rows@ =~= old(rows)@.update(i as int, upsert_pull(old(rows)@[i as int], e)));
            }
            return ;
        }
        i = i + 1;
    }
    rows.push(e);
}

// ---------------------------------------------------------------- purge

/// The rows of `rows` that `keep` holds, in order.
pub open spec fn kept_rows<T>(rows: Seq<T>, keep: spec_fn(T) -> bool) -> Seq<T>
    decreases rows.len(),
{
    if rows.len() == 0 {
        Seq::empty()
    } else if keep(rows.last()) {
        kept_rows(rows.drop_last(), keep).push(rows.last())
    } else {
        kept_rows(rows.drop_last(), keep)
    }
}

/// Whether every issue the pull request closes has a master record.
pub open spec fn pull_merged(p: OuterPull, rs: Seq<crate::records::IssueView>) -> bool {
    forall|k: int| 0 <= k < p.connected_issues@.len() ==> has_issue(rs, #[trigger] p.connected_issues@[k]@)
}

fn all_connected_known(p: &OuterPull, rs: &Vec<IssueRecord>) -> (r: bool)
    ensures
        r == pull_merged(*p, issue_views(rs@)),
{
    let mut k: usize = 0;
    while k < p.connected_issues.len()
        invariant
            k <= p.connected_issues.len(),
            forall|j: int| 0 <= j < k ==> has_issue(issue_views(rs@), #[trigger] p.connected_issues@[j]@),
        decreases p.connected_issues.len() - k,
    {
        proof {
            lemma_issue_pos(issue_views(rs@), p.connected_issues@[k as int]@);
        }
        if find_issue(rs, p.connected_issues[k].as_str()).is_none() {
            return false;
        }
        k = k + 1;
    }
    true
}

/// Removes the staged events that are merged into the master records: open,
/// comment, assignment and closed events whose issue has a record, and pull requests all
/// of whose issues have one. Events that could not be merged stay for the
/// next run.
pub fn purge_merged(b: &mut StagedBatch, rs: &Vec<IssueRecord>)
    ensures
        final(b).opens@ == kept_rows(
            old(b).opens@,
            |o: IssueOpen| !has_issue(issue_views(rs@), o.issue_id@),
        ),
        final(b).comments@ == kept_rows(
            old(b).comments@,
            |c: IssueComment| !has_issue(issue_views(rs@), c.issue_id@),
        ),
        final(b).assigns@ == kept_rows(
            old(b).assigns@,
            |a: IssueAssigned| !has_issue(issue_views(rs@), a.issue_id@),
        ),
        final(b).closeds@ == kept_rows(
            old(b).closeds@,
            |c: IssueClosed| !has_issue(issue_views(rs@), c.issue_id@),
        ),
        final(b).pulls@ == kept_rows(
            old(b).pulls@,
            |p: OuterPull| !pull_merged(p, issue_views(rs@)),
        ),
{
    let ghost vs = issue_views(rs@);
    // opens
    let mut opens: Vec<IssueOpen> = Vec::new();
    let mut src: Vec<IssueOpen> = Vec::new();
    std::mem::swap(&mut src, &mut b.opens);
    let ghost all = src@;
    proof {
        assert(all.take(0) =~= Seq::<IssueOpen>::empty());
        assert(all.subrange(0, all.len() as int) =~= all);
    }
    while src.len() > 0
        invariant
            all == old(b).opens@,
            src@.len() <= all.len(),
            src@ == all.subrange(all.len() - src@.len(), all.len() as int),
            opens@ == kept_rows(
                all.take(all.len() - src@.len()),
                |o: IssueOpen| !has_issue(vs, o.issue_id@),
            ),
            vs == issue_views(rs@),
        decreases src.len(),
    {
        let ghost n = all.len() - src@.len();
        let e = src.remove(0);
        proof {
            assert(all.take(n + 1).drop_last() =~= all.take(n));
            assert(all.take(n + 1).last() == e);
            lemma_issue_pos(vs, e.issue_id@);
        }
        if find_issue(rs, e.issue_id.as_str()).is_none() {
            opens.push(e);
        }
        proof {
            assert(src@ =~= all.subrange(all.len() - src@.len(), all.len() as int));
        }
    }
    proof {
        assert(all.take(all.len() as int) =~= all);
    }
    b.opens = opens;
    // comments
    let mut comments: Vec<IssueComment> = Vec::new();
    let mut src: Vec<IssueComment> = Vec::new();
    std::mem::swap(&mut src, &mut b.comments);
    let ghost all = src@;
    proof {
        assert(all.take(0) =~= Seq::<IssueComment>::empty());
        assert(all.subrange(0, all.len() as int) =~= all);
    }
    while src.len() > 0
        invariant
            all == old(b).comments@,
            src@.len() <= all.len(),
            src@ == all.subrange(all.len() - src@.len(), all.len() as int),
            comments@ == kept_rows(
                all.take(all.len() - src@.len()),
                |c: IssueComment| !has_issue(vs, c.issue_id@),
            ),
            vs == issue_views(rs@),
        decreases src.len(),
    {
        let ghost n = all.len() - src@.len();
        let e = src.remove(0);
        proof {
            assert(all.take(n + 1).drop_last() =~= all.take(n));
            assert(all.take(n + 1).last() == e);
            lemma_issue_pos(vs, e.issue_id@);
        }
        if find_issue(rs, e.issue_id.as_str()).is_none() {
            comments.push(e);
        }
        proof {
            assert(src@ =~= all.subrange(all.len() - src@.len(), all.len() as int));
        }
    }
    proof {
        assert(all.take(all.len() as int) =~= all);
    }
    b.comments = comments;
    // assignments
    let mut assigns: Vec<IssueAssigned> = Vec::new();
    let mut src: Vec<IssueAssigned> = Vec::new();
    std::mem::swap(&mut src, &mut b.assigns);
    let ghost all = src@;
    proof {
        assert(all.take(0) =~= Seq::<IssueAssigned>::empty());
        assert(all.subrange(0, all.len() as int) =~= all);
    }
    while src.len() > 0
        invariant
            all == old(b).assigns@,
            src@.len() <= all.len(),
            src@ == all.subrange(all.len() - src@.len(), all.len() as int),
            assigns@ == kept_rows(
                all.take(all.len() - src@.len()),
                |a: IssueAssigned| !has_issue(vs, a.issue_id@),
            ),
            vs == issue_views(rs@),
        decreases src.len(),
    {
        let ghost n = all.len() - src@.len();
        let e = src.remove(0);
        proof {
            assert(all.take(n + 1).drop_last() =~= all.take(n));
            assert(all.take(n + 1).last() == e);
            lemma_issue_pos(vs, e.issue_id@);
        }
        if find_issue(rs, e.issue_id.as_str()).is_none() {
            assigns.push(e);
        }
        proof {
            assert(src@ =~= all.subrange(all.len() - src@.len(), all.len() as int));
        }
    }
    proof {
        assert(all.take(all.len() as int) =~= all);
    }
    b.assigns = assigns;
    // closeds
    let mut closeds: Vec<IssueClosed> = Vec::new();
    let mut src: Vec<IssueClosed> = Vec::new();
    std::mem::swap(&mut src, &mut b.closeds);
    let ghost all = src@;
    proof {
        assert(all.take(0) =~= Seq::<IssueClosed>::empty());
        assert(all.subrange(0, all.len() as int) =~= all);
    }
    while src.len() > 0
        invariant
            all == old(b).closeds@,
            src@.len() <= all.len(),
            src@ == all.subrange(all.len() - src@.len(), all.len() as int),
            closeds@ == kept_rows(
                all.take(all.len() - src@.len()),
                |c: IssueClosed| !has_issue(vs, c.issue_id@),
            ),
            vs == issue_views(rs@),
        decreases src.len(),
    {
        let ghost n = all.len() - src@.len();
        let e = src.remove(0);
        proof {
            assert(all.take(n + 1).drop_last() =~= all.take(n));
            assert(all.take(n + 1).last() == e);
            lemma_issue_pos(vs, e.issue_id@);
        }
        if find_issue(rs, e.issue_id.as_str()).is_none() {
            closeds.push(e);
        }
        proof {
            assert(src@ =~= all.subrange(all.len() - src@.len(), all.len() as int));
        }
    }
    proof {
        assert(all.take(all.len() as int) =~= all);
    }
    b.closeds = closeds;
    // pulls
    let mut pulls: Vec<OuterPull> = Vec::new();
    let mut src: Vec<OuterPull> = Vec::new();
    std::mem::swap(&mut src, &mut b.pulls);
    let ghost all = src@;
    proof {
        assert(all.take(0) =~= Seq::<OuterPull>::empty());
        assert(all.subrange(0, all.len() as int) =~= all);
    }
    while src.len() > 0
        invariant
            all == old(b).pulls@,
            src@.len() <= all.len(),
            src@ == all.subrange(all.len() - src@.len(), all.len() as int),
            pulls@ == kept_rows(
                all.take(all.len() - src@.len()),
                |p: OuterPull| !pull_merged(p, vs),
            ),
            vs == issue_views(rs@),
        decreases src.len(),
    {
        let ghost n = all.len() - src@.len();
        let e = src.remove(0);
        proof {
            assert(all.take(n + 1).drop_last() =~= all.take(n));
            assert(all.take(n + 1).last() == e);
        }
        if !all_connected_known(&e, rs) {
            pulls.push(e);
        }
        proof {
            assert(src@ =~= all.subrange(all.len() - src@.len(), all.len() as int));
        }
    }
    proof {
        assert(all.take(all.len() as int) =~= all);
    }
    b.pulls = pulls;
}

} // verus!
