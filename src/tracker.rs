//! What the ingestion makes of the tracker's items: staged events from the
//! fields of an item, the budget named in an issue, and the repository search.
use vstd::prelude::*;

use crate::aggregate::{project_index, empty_project};
use crate::enrich::prefix_chars;
use crate::pattern::{group_one_of_matches, opt_texts_of, pattern_groups};
use crate::events::{IssueAssigned, IssueClosed, IssueComment, IssueOpen, OuterPull, RepoData};
use crate::records::{opt_text, opt_texts, project_views, texts, ProjectRecord, ProjectView};
use crate::text::{
    chars_of, digits_value, is_digits, parse_digits, prefix, push_all, push_chars,
    slice_chars, string_of,
};
use crate::window::{timestamp_of, utc_seconds};

verus! {

// ---------------------------------------------------------------- project ids

/// The last position before `end` that holds `c`.
pub open spec fn rfind(s: Seq<char>, c: char, end: int) -> Option<int>
    decreases end,
{
    if end <= 0 || end > s.len() {
        None
    } else if s[end - 1] == c {
        Some(end - 1)
    } else {
        rfind(s, c, end - 1)
    }
}

/// The repository of an item URL: the URL without its last two segments
/// (`https://host/owner/repo/issues/7` gives `https://host/owner/repo`).
pub open spec fn project_of(url: Seq<char>) -> Option<Seq<char>> {
    match rfind(url, '/', url.len() as int) {
        None => None,
        Some(i1) => match rfind(url, '/', i1) {
            None => None,
            Some(i2) => Some(url.take(i2)),
        },
    }
}

proof fn lemma_rfind_bounds(s: Seq<char>, c: char, end: int)
    ensures
        rfind(s, c, end) matches Some(i) ==> 0 <= i < end && i < s.len() && s[i] == c,
    decreases end,
{
    if 0 < end <= s.len() && s[end - 1] != c {
        lemma_rfind_bounds(s, c, end - 1);
    }
}

fn rfind_char(v: &Vec<char>, c: char, end: usize) -> (r: Option<usize>)
    requires
        end <= v.len(),
    ensures
        r matches Some(i) ==> rfind(v@, c, end as int) == Some(i as int),
        r is None ==> rfind(v@, c, end as int) is None,
{
    let mut e = end;
    while e > 0 && v[e - 1] != c
        invariant
            e <= end <= v.len(),
            rfind(v@, c, end as int) == rfind(v@, c, e as int),
        decreases e,
    {
        e = e - 1;
    }
    if e == 0 {
        None
    } else {
        Some(e - 1)
    }
}

/// The repository URL of an item URL, if it has two segments to drop.
pub fn project_id_of(url: &str) -> (r: Option<String>)
    ensures
        r matches Some(s) ==> project_of(url@) == Some(s@),
        r is None ==> project_of(url@) is None,
{
    let v = chars_of(url);
    match rfind_char(&v, '/', v.len()) {
        None => None,
        Some(i1) => {
            proof {
                lemma_rfind_bounds(v@, '/', v@.len() as int);
            }
            match rfind_char(&v, '/', i1) {
                None => None,
                Some(i2) => {
                    proof {
                        lemma_rfind_bounds(v@, '/', i1 as int);
                        assert(v@.subrange(0, i2 as int) =~= v@.take(i2 as int));
                    }
                    Some(string_of(&slice_chars(&v, 0, i2)))
                },
            }
        },
    }
}

// ---------------------------------------------------------------- budgets

/// A budget mention: the word `budget` in any case, an optional colon and
/// whitespace, then two or three decimal digits, which group 1 takes.
pub const BUDGET_PATTERN: &'static str = "(?i)budget:?\\s*(\\d{2,3})";

/// The budget a captured group names: its digits read as a number between 10
/// and 999. Digits outside ASCII do not read as a number.
pub open spec fn group_budget(g: Option<Seq<char>>) -> Option<nat> {
    match g {
        Some(c) => if is_digits(c) && 10 <= digits_value(c) <= 999 {
            Some(digits_value(c))
        } else {
            None
        },
        None => None,
    }
}

/// The first captured budget from position `i` on; 0 when there is none.
pub open spec fn first_budget_from(groups: Seq<Option<Seq<char>>>, i: int) -> nat
    decreases groups.len() - i,
{
    if i < 0 || i >= groups.len() {
        0
    } else {
        match group_budget(groups[i]) {
            Some(b) => b,
            None => first_budget_from(groups, i + 1),
        }
    }
}

/// The first budget among the captured groups of the budget mentions.
pub fn first_budget_in(groups: &Vec<Option<String>>) -> (r: u32)
    ensures
        r == first_budget_from(opt_texts_of(groups@), 0),
{
    let ghost gs = opt_texts_of(groups@);
    let mut i: usize = 0;
    while i < groups.len()
        invariant
            i <= groups.len(),
            gs == opt_texts_of(groups@),
            first_budget_from(gs, 0) == first_budget_from(gs, i as int),
        decreases groups.len() - i,
    {
        match &groups[i] {
            Some(g) => {
                match parse_digits(&chars_of(g.as_str()), 999) {
                    Some(v) => {
                        if v >= 10 {
                            return v as u32;
                        }
                    },
                    None => {},
                }
            },
            None => {},
        }
        i = i + 1;
    }
    0
}

/// The budget an issue's text names, as [`extract_budget`] reads it.
pub open spec fn text_budget(s: Seq<char>) -> nat {
    match pattern_groups(BUDGET_PATTERN@, s) {
        Some(gs) => first_budget_from(gs, 0),
        None => 0,
    }
}

/// The budget named in an issue's text: the first mention of the word
/// `budget` with two or three digits after it that read as a number between
/// 10 and 999; 0 when there is none.
pub fn extract_budget(body: &str) -> (r: u32)
    ensures
        r == text_budget(body@),
{
    match group_one_of_matches(BUDGET_PATTERN, body) {
        Some(groups) => first_budget_in(&groups),
        None => 0,
    }
}

// ---------------------------------------------------------------- items

/// The longest description kept of an issue, in characters.
pub const DESCRIPTION_LIMIT: usize = 8000;

/// The open event of an issue item.
pub open spec fn open_event_spec(
    node_id: Seq<char>,
    title: Seq<char>,
    url: Seq<char>,
    body: Option<Seq<char>>,
    author: Option<Seq<char>>,
) -> (Seq<char>, Seq<char>, Seq<char>, Seq<char>, nat, Seq<char>, Seq<char>) {
    let description = prefix(
        match body {
            Some(b) => b,
            None => Seq::empty(),
        },
        DESCRIPTION_LIMIT as nat,
    );
    (
        node_id,
        title,
        url,
        match author {
            Some(a) => a,
            None => Seq::empty(),
        },
        text_budget(description),
        description,
        match project_of(url) {
            Some(p) => p,
            None => Seq::empty(),
        },
    )
}

pub open spec fn open_view(o: IssueOpen) -> (
    Seq<char>,
    Seq<char>,
    Seq<char>,
    Seq<char>,
    nat,
    Seq<char>,
    Seq<char>,
) {
    (
        o.node_id@,
        o.issue_title@,
        o.issue_id@,
        o.issue_creator@,
        o.issue_budget as nat,
        o.issue_description@,
        o.project_id@,
    )
}

/// The open event of an issue item: the description cut to its limit, the
/// budget read from it, the repository taken from the URL (empty when the URL
/// names none, which keeps the event from being merged).
pub fn open_event(
    node_id: String,
    title: String,
    url: String,
    body: Option<String>,
    author: Option<String>,
) -> (r: IssueOpen)
    ensures
        open_view(r) == open_event_spec(
            node_id@,
            title@,
            url@,
            crate::records::opt_text(body),
            crate::records::opt_text(author),
        ),
{
    let text = match &body {
        Some(b) => chars_of(b.as_str()),
        None => Vec::new(),
    };
    let description = prefix_chars(&text, DESCRIPTION_LIMIT);
    let description = string_of(&description);
    let budget = extract_budget(description.as_str());
    let project_id = match project_id_of(url.as_str()) {
        Some(p) => p,
        None => String::new(),
    };
    let creator = match author {
        Some(a) => a,
        None => String::new(),
    };
    IssueOpen {
        node_id,
        issue_title: title,
        issue_id: url,
        issue_creator: creator,
        issue_budget: budget,
        issue_description: description,
        project_id,
    }
}

/// The closed event of an issue item; an empty list of assignees counts as none.
pub fn closed_event(url: String, assignees: Option<Vec<String>>, linked_pr: Option<String>) -> (r:
    IssueClosed)
    ensures
        r.issue_id == url,
        r.issue_linked_pr == linked_pr,
        opt_texts(r.issue_assignees) == match assignees {
            Some(v) => if v@.len() > 0 {
                Some(texts(v@))
            } else {
                None
            },
            None => None,
        },
{
    let issue_assignees = match assignees {
        Some(v) => if v.len() > 0 {
            Some(v)
        } else {
            None
        },
        None => None,
    };
    IssueClosed { issue_id: url, issue_assignees, issue_linked_pr: linked_pr }
}

/// The pull-request event of a merged pull request item: the repository taken
/// from its URL (empty when it names none), the merge time read from its text
/// (0 when it does not read as a time).
pub fn pull_event(
    url: String,
    title: String,
    author: Option<String>,
    merged_at: &str,
    connected_issues: Vec<String>,
) -> (r: OuterPull)
    ensures
        r.pull_id == url,
        r.pull_title == title,
        r.pull_author == author,
        r.connected_issues == connected_issues,
        r.project_id@ == match project_of(url@) {
            Some(p) => p,
            None => Seq::empty(),
        },
        r.merged_at == match utc_seconds(merged_at@) {
            Some(v) => if v >= 0 {
                v
            } else {
                0
            },
            None => 0,
        },
{
    let project_id = match project_id_of(url.as_str()) {
        Some(p) => p,
        None => String::new(),
    };
    let merged = match timestamp_of(merged_at) {
        Some(t) => t,
        None => 0,
    };
    OuterPull {
        pull_id: url,
        pull_title: title,
        pull_author: author,
        project_id,
        merged_at: merged,
        connected_issues,
    }
}

/// The comment event of a comment item, when its time reads as one; an empty
/// list of assignees counts as none.
pub fn comment_event(
    issue_id: String,
    assignees: Option<Vec<String>>,
    author: String,
    updated_at: &str,
    body: String,
) -> (r: Option<IssueComment>)
    ensures
        r is None <==> !(utc_seconds(updated_at@) matches Some(v) && v >= 0),
        r matches Some(c) ==> c.issue_id == issue_id && c.assignees == (match assignees {
            Some(v) => if v@.len() > 0 {
                Some(v)
            } else {
                None
            },
            None => None,
        }) && c.comment_creator == author && c.comment_body == body && utc_seconds(updated_at@)
            == Some(c.comment_date as int),
{
    let assignees = match assignees {
        Some(v) => if v.len() > 0 {
            Some(v)
        } else {
            None
        },
        None => None,
    };
    match timestamp_of(updated_at) {
        Some(t) => Some(
            IssueComment {
                issue_id,
                assignees,
                comment_creator: author,
                comment_date: t,
                comment_body: body,
            },
        ),
        None => None,
    }
}

/// The assignment event of an issue item, when its time reads as one.
pub fn assigned_event(url: String, assignee: Option<String>, created_at: &str) -> (r: Option<
    IssueAssigned,
>)
    ensures
        r is None <==> !(utc_seconds(created_at@) matches Some(v) && v >= 0),
        r matches Some(e) ==> e.issue_id == url && e.issue_assignee@ == (match opt_text(assignee) {
            Some(a) => a,
            None => Seq::empty(),
        }) && utc_seconds(created_at@) == Some(e.date_assigned as int),
{
    match timestamp_of(created_at) {
        Some(t) => Some(
            IssueAssigned {
                issue_id: url,
                issue_assignee: match assignee {
                    Some(a) => a,
                    None => String::new(),
                },
                date_assigned: t,
            },
        ),
        None => None,
    }
}

/// The positions of the project records that have no metadata yet (no logo),
/// at most `limit` of them, in record order.
pub open spec fn metadata_queue(ps: Seq<ProjectView>, limit: nat) -> Seq<int>
    decreases ps.len(),
{
    if ps.len() == 0 {
        Seq::empty()
    } else {
        let before = metadata_queue(ps.drop_last(), limit);
        if ps.last().logo.len() == 0 && before.len() < limit {
            before.push(ps.len() - 1)
        } else {
            before
        }
    }
}

/// The project records whose repository metadata is still to be read.
pub fn projects_lacking_metadata(ps: &Vec<ProjectRecord>, limit: usize) -> (r: Vec<usize>)
    ensures
        r@.map_values(|i: usize| i as int) == metadata_queue(project_views(ps@), limit as nat),
{
    let ghost vs = project_views(ps@);
    let mut out: Vec<usize> = Vec::new();
    let mut i: usize = 0;
    proof {
        assert(out@.map_values(|i: usize| i as int) =~= Seq::<int>::empty());
    }
    while i < ps.len()
        invariant
            i <= ps.len(),
            vs == project_views(ps@),
            out@.map_values(|i: usize| i as int) == metadata_queue(vs.take(i as int), limit as nat),
        decreases ps.len() - i,
    {
        proof {
            assert(vs.take(i as int + 1).drop_last() =~= vs.take(i as int));
            assert(vs.take(i as int + 1).last() == ps@[i as int]@);
        }
        if ps[i].logo.as_str().unicode_len() == 0 && out.len() < limit {
            let ghost before = out@;
            out.push(i);
            proof {
                assert(out@.map_values(|i: usize| i as int) =~= before.map_values(|i: usize| i as int).push(i as int));
            }
        }
        i = i + 1;
    }
    proof {
        assert(vs.take(ps@.len() as int) =~= vs);
    }
    out
}

// ---------------------------------------------------------------- repositories

pub const REPO_HOST: &'static str = "https://github.com/";

/// A repository URL as a search qualifier: the host part replaced by `repo:`.
pub open spec fn repo_qualifier(id: Seq<char>) -> Seq<char> {
    if REPO_HOST@.is_prefix_of(id) {
        "repo:"@ + id.subrange(REPO_HOST@.len() as int, id.len() as int)
    } else {
        id
    }
}

/// The qualifiers of the repositories joined by spaces.
pub open spec fn joined_qualifiers(ids: Seq<Seq<char>>) -> Seq<char>
    decreases ids.len(),
{
    if ids.len() == 0 {
        Seq::empty()
    } else if ids.len() == 1 {
        repo_qualifier(ids[0])
    } else {
        joined_qualifiers(ids.drop_last()) + " "@ + repo_qualifier(ids.last())
    }
}

/// The repository search for a list of repository URLs, forks included.
pub open spec fn repo_search(ids: Seq<Seq<char>>) -> Seq<char> {
    joined_qualifiers(ids) + " fork:true"@
}

fn qualifier(id: &str) -> (r: Vec<char>)
    ensures
        r@ == repo_qualifier(id@),
{
    let v = chars_of(id);
    let host = chars_of(REPO_HOST);
    let mut k: usize = 0;
    let mut ok = host.len() <= v.len();
    while ok && k < host.len()
        invariant
            k <= host.len(),
            host@ == REPO_HOST@,
            v@ == id@,
            ok ==> host.len() <= v.len() && forall|j: int| 0 <= j < k ==> v@[j] == #[trigger] host@[j],
            !ok ==> !REPO_HOST@.is_prefix_of(id@),
        decreases host.len() - k + if ok {
            1int
        } else {
            0int
        },
    {
        if v[k] != host[k] {
            ok = false;
            proof {
                assert(v@.subrange(0, host@.len() as int)[k as int] != host@[k as int]);
            }
        } else {
            k = k + 1;
        }
    }
    if ok {
        proof {
            assert(v@.subrange(0, host@.len() as int) =~= host@);
        }
        let mut out: Vec<char> = Vec::new();
        push_all(&mut out, "repo:");
        push_chars(&mut out, &slice_chars(&v, host.len(), v.len()));
        out
    } else {
        v
    }
}

/// The repository search for the given repository URLs.
pub fn repo_search_query(ids: &Vec<String>) -> (r: String)
    ensures
        r@ == repo_search(texts(ids@)),
{
    let ghost ts = texts(ids@);
    let mut out: Vec<char> = Vec::new();
    let mut i: usize = 0;
    while i < ids.len()
        invariant
            i <= ids.len(),
            ts == texts(ids@),
            out@ == joined_qualifiers(ts.take(i as int)),
        decreases ids.len() - i,
    {
        proof {
            assert(ts.take(i as int + 1).drop_last() =~= ts.take(i as int));
        }
        if i > 0 {
            push_all(&mut out, " ");
        }
        push_chars(&mut out, &qualifier(ids[i].as_str()));
        proof {
            if i == 0 {
                assert(out@ =~= repo_qualifier(ts[0]));
            }
        }
        i = i + 1;
    }
    proof {
        assert(ts.take(ids@.len() as int) =~= ts);
    }
    push_all(&mut out, " fork:true");
    string_of(&out)
}

pub const NO_DESCRIPTION: &'static str = "No description available";

/// The description of a repository: its own, else the start of its readme,
/// else a placeholder.
pub open spec fn description_of(description: Seq<char>, readme: Seq<char>) -> Seq<char> {
    if description.len() > 0 {
        description
    } else if readme.len() > 0 {
        prefix(readme, 1000)
    } else {
        NO_DESCRIPTION@
    }
}

/// The description to record for a repository.
pub fn project_description(repo: &RepoData) -> (r: String)
    ensures
        r@ == description_of(repo.repo_description@, repo.repo_readme@),
{
    let d = chars_of(repo.repo_description.as_str());
    if d.len() > 0 {
        return string_of(&d);
    }
    let readme = chars_of(repo.repo_readme.as_str());
    if readme.len() > 0 {
        string_of(&prefix_chars(&readme, 1000))
    } else {
        NO_DESCRIPTION.to_owned()
    }
}

/// A project record with the metadata of the repository.
pub open spec fn with_metadata(p: ProjectView, repo: RepoData) -> ProjectView {
    ProjectView {
        logo: repo.project_logo@,
        main_language: repo.main_language@,
        repo_stars: repo.repo_stars,
        description: description_of(repo.repo_description@, repo.repo_readme@),
        ..p
    }
}

/// Records the metadata of a repository on its project record, creating the
/// record when there is none.
pub fn fill_project_w_repo_data(ps: &mut Vec<ProjectRecord>, repo: &RepoData)
    ensures
        ({
            let before = project_views(old(ps)@);
            let after = project_views(final(ps)@);
            match crate::aggregate::project_pos(before, repo.project_id@) {
                Some(i) => after == before.update(i, with_metadata(before[i], *repo)),
                None => after == before.push(
                    with_metadata(empty_project(repo.project_id@), *repo),
                ),
            }
        }),
{
    let ghost before = project_views(ps@);
    let description = project_description(repo);
    match project_index(ps, repo.project_id.as_str()) {
        Some(i) => {
            let ghost old_ps = ps@;
            ps[i].logo = repo.project_logo.clone();
            ps[i].main_language = repo.main_language.clone();
            ps[i].repo_stars = repo.repo_stars;
            ps[i].description = description;
            proof {
                assert(project_views(ps@) =~= before.update(
                    i as int,
                    with_metadata(before[i as int], *repo),
                ));
            }
        },
        None => {
            let ghost old_ps = ps@;
            let p = ProjectRecord {
                project_id: repo.project_id.clone(),
                logo: repo.project_logo.clone(),
                main_language: repo.main_language.clone(),
                repo_stars: repo.repo_stars,
                description,
                issues_list: Vec::new(),
                participants_list: Vec::new(),
                total_budget_allocated: 0,
                total_budget_used: 0,
            };
            proof {
                assert(texts(p.issues_list@) =~= Seq::<Seq<char>>::empty());
                assert(texts(p.participants_list@) =~= Seq::<Seq<char>>::empty());
            }
            ps.push(p);
            proof {
                assert(project_views(ps@) =~= before.push(
                    with_metadata(empty_project(repo.project_id@), *repo),
                ));
            }
        },
    }
}

} // verus!
