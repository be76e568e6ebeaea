//! The aggregation engine: derives the project records from the issue
//! records by full recomputation, never by increments.
use vstd::prelude::*;

use crate::records::{
    issue_views, project_views, texts, IssueRecord, IssueView, ProjectRecord,
    ProjectView, ReviewStatus,
};
use crate::text::text_eq;

verus! {

/// The budget of a record, counting an unset budget as 0.
pub open spec fn budget_of(r: IssueView) -> int {
    match r.budget {
        Some(b) => b as int,
        None => 0,
    }
}

/// The sum of the budgets of the issues of the project.
pub open spec fn budget_sum(rs: Seq<IssueView>, pid: Seq<char>) -> int
    decreases rs.len(),
{
    if rs.len() == 0 {
        0
    } else {
        budget_sum(rs.drop_last(), pid) + if rs.last().project_id == pid {
            budget_of(rs.last())
        } else {
            0
        }
    }
}

/// The sum of the budgets of the issues of the project whose budget is approved.
pub open spec fn used_sum(rs: Seq<IssueView>, pid: Seq<char>) -> int
    decreases rs.len(),
{
    if rs.len() == 0 {
        0
    } else {
        used_sum(rs.drop_last(), pid) + if rs.last().project_id == pid
            && rs.last().budget_approved {
            budget_of(rs.last())
        } else {
            0
        }
    }
}

/// The ids of the issues of the project, in record order.
pub open spec fn project_issue_ids(rs: Seq<IssueView>, pid: Seq<char>) -> Seq<Seq<char>>
    decreases rs.len(),
{
    if rs.len() == 0 {
        Seq::empty()
    } else {
        let before = project_issue_ids(rs.drop_last(), pid);
        if rs.last().project_id == pid {
            before.push(rs.last().issue_id)
        } else {
            before
        }
    }
}

/// `acc` followed by each name of `names` that it does not hold yet.
pub open spec fn add_distinct(acc: Seq<Seq<char>>, names: Seq<Seq<char>>) -> Seq<Seq<char>>
    decreases names.len(),
{
    if names.len() == 0 {
        acc
    } else {
        let before = add_distinct(acc, names.drop_last());
        if before.contains(names.last()) {
            before
        } else {
            before.push(names.last())
        }
    }
}

/// The distinct assignees of the issues of the project, in order of first appearance.
pub open spec fn participants(rs: Seq<IssueView>, pid: Seq<char>) -> Seq<Seq<char>>
    decreases rs.len(),
{
    if rs.len() == 0 {
        Seq::empty()
    } else {
        let before = participants(rs.drop_last(), pid);
        if rs.last().project_id == pid && rs.last().assignees is Some {
            add_distinct(before, rs.last().assignees->0)
        } else {
            before
        }
    }
}

proof fn lemma_sums_bounded(rs: Seq<IssueView>, pid: Seq<char>)
    ensures
        0 <= used_sum(rs, pid) <= budget_sum(rs, pid) <= rs.len() * 0xffff_ffff,
    decreases rs.len(),
{
    if rs.len() > 0 {
        lemma_sums_bounded(rs.drop_last(), pid);
    }
}

/// The project record after recomputation: metadata kept, derived fields recomputed.
pub open spec fn recomputed(p: ProjectView, rs: Seq<IssueView>) -> ProjectView {
    ProjectView {
        issues_list: project_issue_ids(rs, p.project_id),
        participants_list: participants(rs, p.project_id),
        total_budget_allocated: budget_sum(rs, p.project_id) as u128,
        total_budget_used: used_sum(rs, p.project_id) as u128,
        ..p
    }
}

/// A project record with only its id.
pub open spec fn empty_project(pid: Seq<char>) -> ProjectView {
    ProjectView {
        project_id: pid,
        logo: Seq::empty(),
        main_language: Seq::empty(),
        repo_stars: 0,
        description: Seq::empty(),
        issues_list: Seq::empty(),
        participants_list: Seq::empty(),
        total_budget_allocated: 0,
        total_budget_used: 0,
    }
}

pub open spec fn has_project(ps: Seq<ProjectView>, pid: Seq<char>) -> bool {
    exists|i: int| 0 <= i < ps.len() && #[trigger] ps[i].project_id == pid
}

/// The project records with one added for each project that issues name and
/// no record has yet.
pub open spec fn with_projects(ps: Seq<ProjectView>, rs: Seq<IssueView>) -> Seq<ProjectView>
    decreases rs.len(),
{
    if rs.len() == 0 {
        ps
    } else {
        let before = with_projects(ps, rs.drop_last());
        if has_project(before, rs.last().project_id) {
            before
        } else {
            before.push(empty_project(rs.last().project_id))
        }
    }
}

/// The project records after aggregation.
pub open spec fn aggregated(ps: Seq<ProjectView>, rs: Seq<IssueView>) -> Seq<ProjectView> {
    with_projects(ps, rs).map_values(|p: ProjectView| recomputed(p, rs))
}

proof fn lemma_with_projects(ps: Seq<ProjectView>, rs: Seq<IssueView>)
    ensures
        with_projects(ps, rs).len() >= ps.len(),
        forall|i: int| 0 <= i < ps.len() ==> #[trigger] with_projects(ps, rs)[i] == ps[i],
        forall|k: int| 0 <= k < rs.len() ==> has_project(with_projects(ps, rs), #[trigger] rs[k].project_id),
    decreases rs.len(),
{
    if rs.len() > 0 {
        let before = with_projects(ps, rs.drop_last());
        let after = with_projects(ps, rs);
        lemma_with_projects(ps, rs.drop_last());
        assert forall|k: int| 0 <= k < rs.len() implies has_project(after, #[trigger] rs[k].project_id) by {
            if k < rs.len() - 1 {
                assert(rs.drop_last()[k] == rs[k]);
                let j = choose|j: int| 0 <= j < before.len() && #[trigger] before[j].project_id == rs.drop_last()[k].project_id;
                assert(after[j] == before[j]);
            } else if !has_project(before, rs.last().project_id) {
                assert(after[before.len() as int].project_id == rs[k].project_id);
            }
        }
    }
}

/// After aggregation every project that an issue names has a record, and each
/// record's totals are the sums over the current issue records: all budgets,
/// and the budgets that are approved.
pub proof fn lemma_aggregated_totals(ps: Seq<ProjectView>, rs: Seq<IssueView>)
    requires
        rs.len() <= usize::MAX,
    ensures
        forall|k: int| 0 <= k < rs.len() ==> has_project(aggregated(ps, rs), #[trigger] rs[k].project_id),
        forall|i: int|
            0 <= i < aggregated(ps, rs).len() ==> {
                let p = #[trigger] aggregated(ps, rs)[i];
                &&& p.total_budget_allocated as int == budget_sum(rs, p.project_id)
                &&& p.total_budget_used as int == used_sum(rs, p.project_id)
            },
{
    let w = with_projects(ps, rs);
    lemma_with_projects(ps, rs);
    let a = aggregated(ps, rs);
    assert forall|k: int| 0 <= k < rs.len() implies has_project(a, #[trigger] rs[k].project_id) by {
        let j = choose|j: int| 0 <= j < w.len() && #[trigger] w[j].project_id == rs[k].project_id;
        assert(a[j].project_id == w[j].project_id);
    }
    assert forall|i: int| 0 <= i < a.len() implies {
        let p = #[trigger] a[i];
        &&& p.total_budget_allocated as int == budget_sum(rs, p.project_id)
        &&& p.total_budget_used as int == used_sum(rs, p.project_id)
    } by {
        lemma_sums_bounded(rs, w[i].project_id);
        assert(rs.len() * 0xffff_ffff <= 0xffff_ffff_ffff_ffff * 0xffff_ffff) by (nonlinear_arith)
            requires
                rs.len() <= 0xffff_ffff_ffff_ffff,
        ;
    }
}

/// The two collections hold the same project records but for their totals.
pub open spec fn same_but_totals(a: Seq<ProjectView>, b: Seq<ProjectView>) -> bool {
    &&& a.len() == b.len()
    &&& forall|i: int|
        0 <= i < a.len() ==> #[trigger] a[i] == (ProjectView {
            total_budget_allocated: a[i].total_budget_allocated,
            total_budget_used: a[i].total_budget_used,
            ..b[i]
        })
}

proof fn lemma_with_projects_same_but_totals(a: Seq<ProjectView>, b: Seq<ProjectView>, rs: Seq<IssueView>)
    requires
        same_but_totals(a, b),
    ensures
        same_but_totals(with_projects(a, rs), with_projects(b, rs)),
    decreases rs.len(),
{
    if rs.len() > 0 {
        lemma_with_projects_same_but_totals(a, b, rs.drop_last());
        let wa = with_projects(a, rs.drop_last());
        let wb = with_projects(b, rs.drop_last());
        let pid = rs.last().project_id;
        if has_project(wa, pid) {
            let j = choose|j: int| 0 <= j < wa.len() && #[trigger] wa[j].project_id == pid;
            assert(wb[j].project_id == pid);
        }
        if has_project(wb, pid) {
            let j = choose|j: int| 0 <= j < wb.len() && #[trigger] wb[j].project_id == pid;
            assert(wa[j].project_id == pid);
        }
        let xa = with_projects(a, rs);
        let xb = with_projects(b, rs);
        assert forall|i: int| 0 <= i < xa.len() implies #[trigger] xa[i] == (ProjectView {
            total_budget_allocated: xa[i].total_budget_allocated,
            total_budget_used: xa[i].total_budget_used,
            ..xb[i]
        }) by {
            if i < wa.len() {
                assert(xa[i] == wa[i]);
                assert(xb[i] == wb[i]);
            }
        }
    }
}

/// Totals are recomputed from scratch, never incremented: project records
/// that differ only in their earlier totals are equal after aggregation over
/// the same issue records.
pub proof fn lemma_totals_from_scratch(a: Seq<ProjectView>, b: Seq<ProjectView>, rs: Seq<IssueView>)
    requires
        same_but_totals(a, b),
    ensures
        aggregated(a, rs) == aggregated(b, rs),
{
    lemma_with_projects_same_but_totals(a, b, rs);
    let wa = with_projects(a, rs);
    let wb = with_projects(b, rs);
    assert forall|i: int| 0 <= i < wa.len() implies #[trigger] recomputed(wa[i], rs) == recomputed(wb[i], rs) by {
        assert(wa[i] == (ProjectView {
            total_budget_allocated: wa[i].total_budget_allocated,
            total_budget_used: wa[i].total_budget_used,
            ..wb[i]
        }));
    }
    assert(aggregated(a, rs) =~= aggregated(b, rs));
}

// ---------------------------------------------------------------- executable

/// The first position at or after `i` whose project record has the id.
pub open spec fn project_pos_from(ps: Seq<ProjectView>, pid: Seq<char>, i: int) -> Option<int>
    decreases ps.len() - i,
{
    if i < 0 || i >= ps.len() {
        None
    } else if ps[i].project_id == pid {
        Some(i)
    } else {
        project_pos_from(ps, pid, i + 1)
    }
}

/// The first position whose project record has the id.
pub open spec fn project_pos(ps: Seq<ProjectView>, pid: Seq<char>) -> Option<int> {
    project_pos_from(ps, pid, 0)
}

proof fn lemma_project_pos_from(ps: Seq<ProjectView>, pid: Seq<char>, i: int)
    requires
        0 <= i <= ps.len(),
    ensures
        project_pos_from(ps, pid, i) matches Some(p) ==> i <= p < ps.len() && ps[p].project_id
            == pid,
        project_pos_from(ps, pid, i) is None ==> forall|k: int|
            i <= k < ps.len() ==> ps[k].project_id != pid,
    decreases ps.len() - i,
{
    if i < ps.len() {
        lemma_project_pos_from(ps, pid, i + 1);
    }
}

/// The position of the project record with the id, if any.
pub fn project_index(ps: &Vec<ProjectRecord>, pid: &str) -> (r: Option<usize>)
    ensures
        r matches Some(i) ==> i < ps@.len() && project_views(ps@)[i as int].project_id == pid@
            && project_pos(project_views(ps@), pid@) == Some(i as int),
        r is None ==> !has_project(project_views(ps@), pid@) && project_pos(
            project_views(ps@),
            pid@,
        ) is None,
{
    let ghost vs = project_views(ps@);
    let mut i: usize = 0;
    while i < ps.len()
        invariant
            i <= ps.len(),
            vs == project_views(ps@),
            project_pos(vs, pid@) == project_pos_from(vs, pid@, i as int),
            forall|k: int| 0 <= k < i ==> #[trigger] vs[k].project_id != pid@,
        decreases ps.len() - i,
    {
        if text_eq(ps[i].project_id.as_str(), pid) {
            return Some(i);
        }
        i = i + 1;
    }
    None
}

fn add_names_distinct(acc: &mut Vec<String>, names: &Vec<String>)
    ensures
        texts(final(acc)@) == add_distinct(texts(old(acc)@), texts(names@)),
{
    let ghost start = texts(acc@);
    let mut i: usize = 0;
    while i < names.len()
        invariant
            i <= names.len(),
            texts(acc@) == add_distinct(start, texts(names@).take(i as int)),
        decreases names.len() - i,
    {
        proof {
            assert(texts(names@).take(i as int + 1).drop_last() =~= texts(names@).take(i as int));
        }
        if !crate::merge::names_contain(acc, names[i].as_str()) {
            let ghost before = acc@;
            acc.push(names[i].clone());
            proof {
                assert(texts(acc@) =~= texts(before).push(names@[i as int]@));
            }
        }
        i = i + 1;
    }
    proof {
        assert(texts(names@).take(names@.len() as int) =~= texts(names@));
    }
}

fn recompute_project(p: &mut ProjectRecord, rs: &Vec<IssueRecord>)
    ensures
        final(p)@ == recomputed(old(p)@, issue_views(rs@)),
{
    let ghost vs = issue_views(rs@);
    let mut total: u128 = 0;
    let mut used: u128 = 0;
    let mut ids: Vec<String> = Vec::new();
    let mut people: Vec<String> = Vec::new();
    let mut i: usize = 0;
    while i < rs.len()
        invariant
            i <= rs.len(),
            vs == issue_views(rs@),
            p.project_id@ == old(p)@.project_id,
            total as int == budget_sum(vs.take(i as int), p.project_id@),
            used as int == used_sum(vs.take(i as int), p.project_id@),
            texts(ids@) == project_issue_ids(vs.take(i as int), p.project_id@),
            texts(people@) == participants(vs.take(i as int), p.project_id@),
        decreases rs.len() - i,
    {
        let r = &rs[i];
        proof {
            assert(vs.take(i as int + 1).drop_last() =~= vs.take(i as int));
            assert(vs.take(i as int + 1).last() == r@);
            lemma_sums_bounded(vs.take(i as int + 1), p.project_id@);
            assert((i + 1) * 0xffff_ffff <= 0xffff_ffff_ffff_ffff * 0xffff_ffff) by (nonlinear_arith)
                requires
                    i + 1 <= 0xffff_ffff_ffff_ffff,
            ;
        }
        if text_eq(r.project_id.as_str(), p.project_id.as_str()) {
            let b: u128 = match r.budget {
                Some(b) => b as u128,
                None => 0,
            };
            total = total + b;
            if r.budget_approved {
                used = used + b;
            }
            let ghost before = ids@;
            ids.push(r.issue_id.clone());
            proof {
                assert(texts(ids@) =~= texts(before).push(r.issue_id@));
            }
            match &r.assignees {
                Some(names) => add_names_distinct(&mut people, names),
                None => {},
            }
        }
        i = i + 1;
    }
    proof {
        assert(vs.take(rs@.len() as int) =~= vs);
    }
    p.total_budget_allocated = total;
    p.total_budget_used = used;
    p.issues_list = ids;
    p.participants_list = people;
}

fn new_project(pid: &String) -> (p: ProjectRecord)
    ensures
        p@ == empty_project(pid@),
{
    let p = ProjectRecord {
        project_id: pid.clone(),
        logo: String::new(),
        main_language: String::new(),
        repo_stars: 0,
        description: String::new(),
        issues_list: Vec::new(),
        participants_list: Vec::new(),
        total_budget_allocated: 0,
        total_budget_used: 0,
    };
    proof {
        assert(texts(p.issues_list@) =~= Seq::<Seq<char>>::empty());
        assert(texts(p.participants_list@) =~= Seq::<Seq<char>>::empty());
    }
    p
}

/// Makes sure every project that an issue names has a record, then
/// recomputes the derived fields of every project record from the issues.
pub fn aggregate(rs: &Vec<IssueRecord>, ps: &mut Vec<ProjectRecord>)
    ensures
        project_views(final(ps)@) == aggregated(project_views(old(ps)@), issue_views(rs@)),
{
    let ghost vs = issue_views(rs@);
    let ghost start = project_views(ps@);
    let mut i: usize = 0;
    while i < rs.len()
        invariant
            i <= rs.len(),
            vs == issue_views(rs@),
            project_views(ps@) == with_projects(start, vs.take(i as int)),
        decreases rs.len() - i,
    {
        proof {
            assert(vs.take(i as int + 1).drop_last() =~= vs.take(i as int));
            assert(vs.take(i as int + 1).last() == rs@[i as int]@);
        }
        if project_index(ps, rs[i].project_id.as_str()).is_none() {
            let ghost before = ps@;
            ps.push(new_project(&rs[i].project_id));
            proof {
                assert(project_views(ps@) =~= project_views(before).push(
                    empty_project(rs@[i as int].project_id@),
                ));
            }
        }
        i = i + 1;
    }
    proof {
        assert(vs.take(rs@.len() as int) =~= vs);
    }
    let ghost grown = project_views(ps@);
    let mut j: usize = 0;
    while j < ps.len()
        invariant
            j <= ps.len() == grown.len(),
            vs == issue_views(rs@),
            forall|k: int| 0 <= k < j ==> #[trigger] project_views(ps@)[k] == recomputed(grown[k], vs),
            forall|k: int| j <= k < ps.len() ==> #[trigger] project_views(ps@)[k] == grown[k],
        decreases ps.len() - j,
    {
        let ghost before = ps@;
        recompute_project(&mut ps[j], rs);
        proof {
            assert forall|k: int| 0 <= k < ps.len() && k != j implies #[trigger] project_views(ps@)[k]
                == project_views(before)[k] by {
                assert(ps@[k] == before[k]);
            }
            assert(project_views(ps@)[j as int] == ps@[j as int]@);
            assert(project_views(before)[j as int] == before[j as int]@);
        }
        j = j + 1;
    }
    proof {
        assert(project_views(ps@) =~= grown.map_values(|p: ProjectView| recomputed(p, vs)));
    }
}

/// Issue counts by review status: all, queued, approved, declined.
pub open spec fn status_count(rs: Seq<IssueView>, s: ReviewStatus) -> int
    decreases rs.len(),
{
    if rs.len() == 0 {
        0
    } else {
        status_count(rs.drop_last(), s) + if rs.last().review_status == s {
            1int
        } else {
            0
        }
    }
}

proof fn lemma_status_counts(rs: Seq<IssueView>)
    ensures
        status_count(rs, ReviewStatus::Queue) + status_count(rs, ReviewStatus::Approve)
            + status_count(rs, ReviewStatus::Decline) == rs.len(),
        0 <= status_count(rs, ReviewStatus::Queue),
        0 <= status_count(rs, ReviewStatus::Approve),
        0 <= status_count(rs, ReviewStatus::Decline),
    decreases rs.len(),
{
    if rs.len() > 0 {
        lemma_status_counts(rs.drop_last());
    }
}

/// The review dashboard's counters.
#[derive(Clone, Copy, Debug, PartialEq, Eq, Structural)]
pub struct IssueStats {
    pub total: u64,
    pub queued: u64,
    pub approved: u64,
    pub declined: u64,
}

/// Counts the issues: all of them, then by review status.
pub fn count_issues_by_status(rs: &Vec<IssueRecord>) -> (r: IssueStats)
    ensures
        r.total == rs@.len(),
        r.queued == status_count(issue_views(rs@), ReviewStatus::Queue),
        r.approved == status_count(issue_views(rs@), ReviewStatus::Approve),
        r.declined == status_count(issue_views(rs@), ReviewStatus::Decline),
{
    let ghost vs = issue_views(rs@);
    let mut q: u64 = 0;
    let mut a: u64 = 0;
    let mut d: u64 = 0;
    let mut i: usize = 0;
    while i < rs.len()
        invariant
            i <= rs.len(),
            vs == issue_views(rs@),
            q == status_count(vs.take(i as int), ReviewStatus::Queue),
            a == status_count(vs.take(i as int), ReviewStatus::Approve),
            d == status_count(vs.take(i as int), ReviewStatus::Decline),
        decreases rs.len() - i,
    {
        proof {
            assert(vs.take(i as int + 1).drop_last() =~= vs.take(i as int));
            lemma_status_counts(vs.take(i as int + 1));
            lemma_status_counts(vs.take(i as int));
        }
        match rs[i].review_status {
            ReviewStatus::Queue => {
                q = q + 1;
            },
            ReviewStatus::Approve => {
                a = a + 1;
            },
            ReviewStatus::Decline => {
                d = d + 1;
            },
        }
        i = i + 1;
    }
    proof {
        assert(vs.take(rs@.len() as int) =~= vs);
    }
    IssueStats { total: rs.len() as u64, queued: q, approved: a, declined: d }
}

/// The sum of the allocated totals of the project records.
pub open spec fn allocated_sum(ps: Seq<ProjectView>) -> int
    decreases ps.len(),
{
    if ps.len() == 0 {
        0
    } else {
        allocated_sum(ps.drop_last()) + ps.last().total_budget_allocated
    }
}

/// The running budget: the whole fund, what projects were allocated, and the balance.
#[derive(Clone, Copy, Debug, PartialEq, Eq, Structural)]
pub struct RunningBudget {
    pub total: u64,
    pub allocated: u64,
    pub balance: i128,
}

/// The running budget against a fund of `total_budget`, or `None` when the
/// allocations do not fit in 64 bits.
pub fn count_budget_by_status(total_budget: u64, ps: &Vec<ProjectRecord>) -> (r: Option<
    RunningBudget,
>)
    ensures
        r is Some <==> allocated_sum(project_views(ps@)) <= u64::MAX,
        r matches Some(b) ==> b.total == total_budget && b.allocated == allocated_sum(
            project_views(ps@),
        ) && b.balance == total_budget - allocated_sum(project_views(ps@)),
{
    let ghost vs = project_views(ps@);
    let mut sum: u128 = 0;
    let mut i: usize = 0;
    while i < ps.len()
        invariant
            i <= ps.len(),
            vs == project_views(ps@),
            sum == allocated_sum(vs.take(i as int)),
            sum <= u64::MAX,
        decreases ps.len() - i,
    {
        proof {
            assert(vs.take(i as int + 1).drop_last() =~= vs.take(i as int));
        }
        match sum.checked_add(ps[i].total_budget_allocated) {
            Some(s) => {
                if s > u64::MAX as u128 {
                    proof {
                        lemma_allocated_monotone(vs, i as int + 1);
                    }
                    return None;
                }
                sum = s;
            },
            None => {
                proof {
                    lemma_allocated_monotone(vs, i as int + 1);
                }
                return None;
            },
        }
        i = i + 1;
    }
    proof {
        assert(vs.take(ps@.len() as int) =~= vs);
    }
    Some(
        RunningBudget {
            total: total_budget,
            allocated: sum as u64,
            balance: total_budget as i128 - sum as i128,
        },
    )
}

proof fn lemma_allocated_monotone(ps: Seq<ProjectView>, n: int)
    requires
        0 <= n <= ps.len(),
    ensures
        allocated_sum(ps.take(n)) <= allocated_sum(ps),
    decreases ps.len() - n,
{
    if n < ps.len() {
        lemma_allocated_monotone(ps, n + 1);
        assert(ps.take(n + 1).drop_last() =~= ps.take(n));
    } else {
        assert(ps.take(n) =~= ps);
    }
}

/// An issue record with the language and the stars of its repository, when
/// the repository has a record.
pub open spec fn synced(r: IssueView, ps: Seq<ProjectView>) -> IssueView {
    match project_pos(ps, r.project_id) {
        Some(i) => IssueView {
            main_language: ps[i].main_language,
            repo_stars: ps[i].repo_stars,
            ..r
        },
        None => r,
    }
}

/// Copies the language and the stars of each repository to its issues.
pub fn sync_project_metadata(rs: &mut Vec<IssueRecord>, ps: &Vec<ProjectRecord>)
    ensures
        issue_views(final(rs)@) == issue_views(old(rs)@).map_values(
            |r: IssueView| synced(r, project_views(ps@)),
        ),
{
    let ghost start = issue_views(rs@);
    let ghost pv = project_views(ps@);
    let mut j: usize = 0;
    while j < rs.len()
        invariant
            j <= rs.len() == start.len(),
            pv == project_views(ps@),
            forall|k: int| 0 <= k < j ==> #[trigger] issue_views(rs@)[k] == synced(start[k], pv),
            forall|k: int| j <= k < rs.len() ==> #[trigger] issue_views(rs@)[k] == start[k],
        decreases rs.len() - j,
    {
        let ghost before = rs@;
        proof {
            assert(issue_views(rs@)[j as int] == rs@[j as int]@);
        }
        match project_index(ps, rs[j].project_id.as_str()) {
            Some(pi) => {
                let lang = ps[pi].main_language.clone();
                let stars = ps[pi].repo_stars;
                rs[j].main_language = lang;
                rs[j].repo_stars = stars;
            },
            None => {},
        }
        proof {
            assert forall|k: int| 0 <= k < rs.len() && k != j implies #[trigger] issue_views(rs@)[k]
                == issue_views(before)[k] by {
                assert(rs@[k] == before[k]);
            }
            assert(issue_views(rs@)[j as int] == rs@[j as int]@);
            assert(issue_views(before)[j as int] == before[j as int]@);
        }
        j = j + 1;
    }
    proof {
        assert(issue_views(rs@) =~= start.map_values(|r: IssueView| synced(r, pv)));
    }
}

} // verus!
