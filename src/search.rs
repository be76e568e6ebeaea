//! The semantic indexer's bookkeeping: summary records, which of them to
//! embed, the flag that records a successful upsert, and the filtering of
//! similarity matches.
use vstd::prelude::*;

use crate::text::text_eq;

verus! {

/// The summary and keywords of an issue or a project, and whether they are
/// in the vector store.
#[derive(Debug)]
pub struct SummaryIndexRecord {
    pub id: String,
    pub summary: String,
    pub keyword_tags: Vec<String>,
    pub indexed: bool,
}

/// A match of a similarity query. The score is in millionths (a cosine
/// similarity of 0.79 is 790000).
#[derive(Debug)]
pub struct ScoredMatch {
    pub source_id: String,
    pub text: String,
    pub score: i64,
}

pub open spec fn summary_ids(rs: Seq<SummaryIndexRecord>) -> Seq<Seq<char>> {
    rs.map_values(|r: SummaryIndexRecord| r.id@)
}

/// Whether a record is waiting to be embedded: it has a summary and is not indexed.
pub open spec fn awaits_index(r: SummaryIndexRecord) -> bool {
    r.summary@.len() > 0 && !r.indexed
}

/// The positions of the records that wait to be embedded, at most `limit` of them.
pub open spec fn index_queue(rs: Seq<SummaryIndexRecord>, limit: nat) -> Seq<int>
    decreases rs.len(),
{
    if rs.len() == 0 {
        Seq::empty()
    } else {
        let before = index_queue(rs.drop_last(), limit);
        if awaits_index(rs.last()) && before.len() < limit {
            before.push(rs.len() - 1)
        } else {
            before
        }
    }
}

/// The positions of the records to embed in this run.
pub fn select_for_indexing(rs: &Vec<SummaryIndexRecord>, limit: usize) -> (r: Vec<usize>)
    ensures
        r@.map_values(|i: usize| i as int) == index_queue(rs@, limit as nat),
{
    let mut out: Vec<usize> = Vec::new();
    let mut i: usize = 0;
    proof {
        assert(out@.map_values(|i: usize| i as int) =~= Seq::<int>::empty());
    }
    while i < rs.len()
        invariant
            i <= rs.len(),
            out@.map_values(|i: usize| i as int) == index_queue(rs@.take(i as int), limit as nat),
        decreases rs.len() - i,
    {
        proof {
            assert(rs@.take(i as int + 1).drop_last() =~= rs@.take(i as int));
            assert(rs@.take(i as int + 1).last() == rs@[i as int]);
        }
        if rs[i].summary.as_str().unicode_len() > 0 && !rs[i].indexed && out.len() < limit {
            let ghost before = out@;
            out.push(i);
            proof {
                assert(out@.map_values(|i: usize| i as int) =~= before.map_values(|i: usize| i as int).push(i as int));
            }
        }
        i = i + 1;
    }
    proof {
        assert(rs@.take(rs@.len() as int) =~= rs@);
    }
    out
}

/// Records the outcome of an upsert: the record of `id` becomes indexed only
/// when the upsert went through; nothing else changes.
pub fn mark_id_indexed(rs: &mut Vec<SummaryIndexRecord>, id: &str, upserted: bool)
    ensures
        final(rs)@.len() == old(rs)@.len(),
        forall|i: int|
            0 <= i < final(rs)@.len() ==> {
                let a = #[trigger] final(rs)@[i];
                let b = old(rs)@[i];
                &&& a.id == b.id
                &&& a.summary == b.summary
                &&& a.keyword_tags == b.keyword_tags
                &&& a.indexed == (b.indexed || (upserted && b.id@ == id@))
            },
{
    let mut i: usize = 0;
    while i < rs.len()
        invariant
            i <= rs.len() == old(rs)@.len(),
            forall|k: int|
                0 <= k < rs.len() ==> {
                    let a = #[trigger] rs@[k];
                    let b = old(rs)@[k];
                    &&& a.id == b.id
                    &&& a.summary == b.summary
                    &&& a.keyword_tags == b.keyword_tags
                    &&& a.indexed == (b.indexed || (k < i && upserted && b.id@ == id@))
                },
        decreases rs.len() - i,
    {
        if upserted && text_eq(rs[i].id.as_str(), id) {
            rs[i].indexed = true;
        }
        i = i + 1;
    }
}

/// Adds the summary record of `id` unless one exists; a record is created
/// once. Returns whether it was added.
pub fn add_summary(rs: &mut Vec<SummaryIndexRecord>, id: &str, summary: String, keyword_tags: Vec<
    String,
>) -> (added: bool)
    ensures
        added == !summary_ids(old(rs)@).contains(id@),
        added ==> final(rs)@ == old(rs)@.push(
            SummaryIndexRecord { id: final(rs)@.last().id, summary, keyword_tags, indexed: false },
        ) && final(rs)@.last().id@ == id@,
        !added ==> final(rs)@ == old(rs)@,
{
    let mut i: usize = 0;
    while i < rs.len()
        invariant
            i <= rs.len(),
            forall|k: int| 0 <= k < i ==> #[trigger] rs@[k].id@ != id@,
        decreases rs.len() - i,
    {
        if text_eq(rs[i].id.as_str(), id) {
            proof {
                assert(summary_ids(rs@)[i as int] == id@);
            }
            return false;
        }
        i = i + 1;
    }
    proof {
        assert forall|k: int| 0 <= k < summary_ids(rs@).len() implies #[trigger] summary_ids(rs@)[k]
            != id@ by {
            assert(rs@[k].id@ != id@);
        }
    }
    rs.push(SummaryIndexRecord { id: id.to_owned(), summary, keyword_tags, indexed: false });
    true
}

/// The positions of the issue records that have no summary record yet, at
/// most `limit` of them, in record order.
pub open spec fn summary_queue(
    issues: Seq<crate::records::IssueView>,
    have: Seq<Seq<char>>,
    limit: nat,
) -> Seq<int>
    decreases issues.len(),
{
    if issues.len() == 0 {
        Seq::empty()
    } else {
        let before = summary_queue(issues.drop_last(), have, limit);
        if !have.contains(issues.last().issue_id) && before.len() < limit {
            before.push(issues.len() - 1)
        } else {
            before
        }
    }
}

fn has_summary(rs: &Vec<SummaryIndexRecord>, id: &str) -> (r: bool)
    ensures
        r == summary_ids(rs@).contains(id@),
{
    let mut i: usize = 0;
    while i < rs.len()
        invariant
            i <= rs.len(),
            forall|k: int| 0 <= k < i ==> #[trigger] rs@[k].id@ != id@,
        decreases rs.len() - i,
    {
        if text_eq(rs[i].id.as_str(), id) {
            proof {
                assert(summary_ids(rs@)[i as int] == id@);
            }
            return true;
        }
        i = i + 1;
    }
    proof {
        assert forall|k: int| 0 <= k < summary_ids(rs@).len() implies #[trigger] summary_ids(rs@)[k]
            != id@ by {
            assert(rs@[k].id@ != id@);
        }
    }
    false
}

/// The positions of the issues to summarize in this run: those without a
/// summary record, at most `limit` of them. An issue whose reply could not be
/// read still has its (empty) record, so it is not asked again.
pub fn issues_needing_summary(
    issues: &Vec<crate::records::IssueRecord>,
    summaries: &Vec<SummaryIndexRecord>,
    limit: usize,
) -> (r: Vec<usize>)
    ensures
        r@.map_values(|i: usize| i as int) == summary_queue(
            crate::records::issue_views(issues@),
            summary_ids(summaries@),
            limit as nat,
        ),
{
    let ghost vs = crate::records::issue_views(issues@);
    let ghost have = summary_ids(summaries@);
    let mut out: Vec<usize> = Vec::new();
    let mut i: usize = 0;
    proof {
        assert(out@.map_values(|i: usize| i as int) =~= Seq::<int>::empty());
    }
    while i < issues.len()
        invariant
            i <= issues.len(),
            vs == crate::records::issue_views(issues@),
            have == summary_ids(summaries@),
            out@.map_values(|i: usize| i as int) == summary_queue(vs.take(i as int), have, limit as nat),
        decreases issues.len() - i,
    {
        proof {
            assert(vs.take(i as int + 1).drop_last() =~= vs.take(i as int));
            assert(vs.take(i as int + 1).last() == issues@[i as int]@);
        }
        if !has_summary(summaries, issues[i].issue_id.as_str()) && out.len() < limit {
            let ghost before = out@;
            out.push(i);
            proof {
                assert(out@.map_values(|i: usize| i as int) =~= before.map_values(|i: usize| i as int).push(i as int));
            }
        }
        i = i + 1;
    }
    proof {
        assert(vs.take(issues@.len() as int) =~= vs);
    }
    out
}

/// The matches kept from a search: those scoring strictly above the
/// threshold, as (source, text) pairs, in the order of the search.
pub open spec fn kept(ms: Seq<ScoredMatch>, threshold: i64) -> Seq<(Seq<char>, Seq<char>)>
    decreases ms.len(),
{
    if ms.len() == 0 {
        Seq::empty()
    } else {
        let before = kept(ms.drop_last(), threshold);
        if ms.last().score > threshold {
            before.push((ms.last().source_id@, ms.last().text@))
        } else {
            before
        }
    }
}

/// The first `k` matches of the search (all of them when there are fewer).
pub open spec fn top(ms: Seq<ScoredMatch>, k: nat) -> Seq<ScoredMatch> {
    if ms.len() <= k {
        ms
    } else {
        ms.take(k as int)
    }
}

pub open spec fn pair_views(v: Seq<(String, String)>) -> Seq<(Seq<char>, Seq<char>)> {
    v.map_values(|p: (String, String)| (p.0@, p.1@))
}

/// Keeps, of the first `limit` matches, those scoring above the threshold.
pub fn filter_matches(ms: &Vec<ScoredMatch>, threshold: i64, limit: usize) -> (r: Vec<
    (String, String),
>)
    ensures
        pair_views(r@) == kept(top(ms@, limit as nat), threshold),
{
    let n: usize = if ms.len() <= limit {
        ms.len()
    } else {
        limit
    };
    let ghost t = top(ms@, limit as nat);
    proof {
        if ms@.len() <= limit {
        } else {
            assert(t =~= ms@.take(n as int));
        }
        assert(t.len() == n);
    }
    let mut out: Vec<(String, String)> = Vec::new();
    let mut i: usize = 0;
    proof {
        assert(pair_views(out@) =~= Seq::<(Seq<char>, Seq<char>)>::empty());
    }
    while i < n
        invariant
            i <= n <= ms.len(),
            t.len() == n,
            forall|k: int| 0 <= k < n ==> #[trigger] t[k] == ms@[k],
            pair_views(out@) == kept(t.take(i as int), threshold),
        decreases n - i,
    {
        proof {
            assert(t.take(i as int + 1).drop_last() =~= t.take(i as int));
            assert(t.take(i as int + 1).last() == ms@[i as int]);
        }
        if ms[i].score > threshold {
            let ghost before = out@;
            out.push((ms[i].source_id.clone(), ms[i].text.clone()));
            proof {
                assert(pair_views(out@) =~= pair_views(before).push(
                    (ms@[i as int].source_id@, ms@[i as int].text@),
                ));
            }
        }
        i = i + 1;
    }
    proof {
        assert(t.take(n as int) =~= t);
    }
    out
}

/// Whether the pair comes from a match scoring strictly above the threshold.
pub open spec fn from_match_above(ms: Seq<ScoredMatch>, threshold: i64, p: (Seq<char>, Seq<char>)) -> bool {
    exists|j: int|
        0 <= j < ms.len() && (#[trigger] ms[j]).score > threshold && p == (
            ms[j].source_id@,
            ms[j].text@,
        )
}

proof fn lemma_kept_above(ms: Seq<ScoredMatch>, threshold: i64)
    ensures
        forall|i: int|
            0 <= i < kept(ms, threshold).len() ==> from_match_above(
                ms,
                threshold,
                #[trigger] kept(ms, threshold)[i],
            ),
    decreases ms.len(),
{
    if ms.len() > 0 {
        lemma_kept_above(ms.drop_last(), threshold);
        let before = kept(ms.drop_last(), threshold);
        assert forall|i: int| 0 <= i < kept(ms, threshold).len() implies from_match_above(
            ms,
            threshold,
            #[trigger] kept(ms, threshold)[i],
        ) by {
            if i < before.len() {
                assert(from_match_above(ms.drop_last(), threshold, before[i]));
                let j = choose|j: int|
                    0 <= j < ms.drop_last().len() && (#[trigger] ms.drop_last()[j]).score > threshold
                        && before[i] == (ms.drop_last()[j].source_id@, ms.drop_last()[j].text@);
                assert(ms[j] == ms.drop_last()[j]);
            } else {
                assert(ms[ms.len() - 1].score > threshold);
            }
        }
    }
}

/// A similarity search never returns a match that scores at or below the
/// threshold: each pair it keeps comes from a match scoring strictly above it.
pub proof fn lemma_matches_above_threshold(ms: Seq<ScoredMatch>, threshold: i64, limit: nat)
    ensures
        forall|i: int|
            0 <= i < kept(top(ms, limit), threshold).len() ==> from_match_above(
                ms,
                threshold,
                #[trigger] kept(top(ms, limit), threshold)[i],
            ),
{
    let t = top(ms, limit);
    lemma_kept_above(t, threshold);
    assert forall|i: int| 0 <= i < kept(t, threshold).len() implies from_match_above(
        ms,
        threshold,
        #[trigger] kept(t, threshold)[i],
    ) by {
        assert(from_match_above(t, threshold, kept(t, threshold)[i]));
        let j = choose|j: int|
            0 <= j < t.len() && (#[trigger] t[j]).score > threshold && kept(t, threshold)[i] == (
                t[j].source_id@,
                t[j].text@,
            );
        assert(t[j] == ms[j]);
    }
}


/// Whether the record carries one of the tags.
pub open spec fn has_any_tag(r: SummaryIndexRecord, tags: Seq<Seq<char>>) -> bool {
    exists|i: int| 0 <= i < r.keyword_tags@.len() && tags.contains(#[trigger] r.keyword_tags@[i]@)
}

/// The ids of the records that carry one of the tags, each once, in record order.
pub open spec fn tagged_ids(rs: Seq<SummaryIndexRecord>, tags: Seq<Seq<char>>) -> Seq<Seq<char>>
    decreases rs.len(),
{
    if rs.len() == 0 {
        Seq::empty()
    } else {
        let before = tagged_ids(rs.drop_last(), tags);
        if has_any_tag(rs.last(), tags) && !before.contains(rs.last().id@) {
            before.push(rs.last().id@)
        } else {
            before
        }
    }
}

fn carries_any(r: &SummaryIndexRecord, tags: &Vec<String>) -> (b: bool)
    ensures
        b == has_any_tag(*r, crate::records::texts(tags@)),
{
    let mut i: usize = 0;
    while i < r.keyword_tags.len()
        invariant
            i <= r.keyword_tags.len(),
            forall|k: int| 0 <= k < i ==> !crate::records::texts(tags@).contains(#[trigger] r.keyword_tags@[k]@),
        decreases r.keyword_tags.len() - i,
    {
        if crate::merge::names_contain(tags, r.keyword_tags[i].as_str()) {
            return true;
        }
        i = i + 1;
    }
    false
}

/// The issues and projects whose keywords include one of the tags.
pub fn search_by_keyword_tags(rs: &Vec<SummaryIndexRecord>, tags: &Vec<String>) -> (r: Vec<String>)
    ensures
        crate::records::texts(r@) == tagged_ids(rs@, crate::records::texts(tags@)),
{
    let ghost ts = crate::records::texts(tags@);
    let mut out: Vec<String> = Vec::new();
    let mut i: usize = 0;
    proof {
        assert(crate::records::texts(out@) =~= Seq::<Seq<char>>::empty());
    }
    while i < rs.len()
        invariant
            i <= rs.len(),
            ts == crate::records::texts(tags@),
            crate::records::texts(out@) == tagged_ids(rs@.take(i as int), ts),
        decreases rs.len() - i,
    {
        proof {
            assert(rs@.take(i as int + 1).drop_last() =~= rs@.take(i as int));
            assert(rs@.take(i as int + 1).last() == rs@[i as int]);
        }
        if carries_any(&rs[i], tags) && !crate::merge::names_contain(&out, rs[i].id.as_str()) {
            let ghost before = out@;
            out.push(rs[i].id.clone());
            proof {
                assert(crate::records::texts(out@) =~= crate::records::texts(before).push(rs@[i as int].id@));
            }
        }
        i = i + 1;
    }
    proof {
        assert(rs@.take(rs@.len() as int) =~= rs@);
    }
    out
}

} // verus!
