//! The decisions around a run: paging through a search, the lease that keeps
//! two runs from overlapping, and the choice of an access token.
use vstd::prelude::*;

use crate::records::texts;
use crate::text::{chars_of, split_chars, split_on, string_of, trim, trim_chars};

verus! {

// ---------------------------------------------------------------- paging

/// Where the paging of one search stands: the cursor to resume from, the
/// pages read, and whether it is done.
#[derive(Debug)]
pub struct Paginator {
    pub cursor: Option<String>,
    pub pages: u32,
    pub max_pages: u32,
    pub finished: bool,
    /// Whether a page could not be read.
    pub failed: bool,
}

impl Paginator {
    /// A search not yet started, allowed `max_pages` pages; it can resume
    /// from a cursor a failed run left.
    pub fn new(max_pages: u32, resume_from: Option<String>) -> (p: Paginator)
        ensures
            p.cursor == resume_from,
            p.pages == 0,
            p.max_pages == max_pages,
            p.finished == (max_pages == 0),
            !p.failed,
    {
        Paginator { cursor: resume_from, pages: 0, max_pages, finished: max_pages == 0, failed: false }
    }

    /// The cursor to ask the next page with (`Some(None)` for the first page),
    /// or `None` when the search is done.
    pub fn next_request(&self) -> (r: Option<Option<String>>)
        ensures
            self.finished ==> r is None,
            !self.finished ==> r == Some(self.cursor),
    {
        if self.finished {
            None
        } else {
            Some(crate::records::copy_opt_text(&self.cursor))
        }
    }

    /// Takes in a page that was read: the cursor moves on, and the search is
    /// done when there are no more pages, no cursor to go on with, or the page
    /// budget is spent. A page that comes after the search is done, or beyond
    /// the budget, is not counted and ends the search.
    pub fn on_page(&mut self, has_more: bool, end_cursor: Option<String>)
        ensures
            old(self).finished || old(self).pages >= old(self).max_pages ==> {
                &&& final(self).finished
                &&& final(self).pages == old(self).pages
                &&& final(self).cursor == old(self).cursor
            },
            !old(self).finished && old(self).pages < old(self).max_pages ==> {
                &&& final(self).pages == old(self).pages + 1
                &&& final(self).cursor == if has_more && end_cursor is Some {
                    end_cursor
                } else {
                    old(self).cursor
                }
                &&& final(self).finished == (!has_more || end_cursor is None || final(self).pages
                    >= final(self).max_pages)
            },
            final(self).max_pages == old(self).max_pages,
            final(self).failed == old(self).failed,
    {
        if self.finished || self.pages >= self.max_pages {
            self.finished = true;
            return ;
        }
        self.pages = self.pages + 1;
        if has_more && end_cursor.is_some() {
            self.cursor = end_cursor;
            self.finished = self.pages >= self.max_pages;
        } else {
            self.finished = true;
        }
    }

    /// A page could not be read: the search stops for this run and keeps its
    /// cursor, so the next run resumes where this one got to.
    pub fn on_error(&mut self)
        ensures
            final(self).finished,
            final(self).failed,
            final(self).cursor == old(self).cursor,
            final(self).pages == old(self).pages,
            final(self).max_pages == old(self).max_pages,
    {
        self.finished = true;
        self.failed = true;
    }
}

// ---------------------------------------------------------------- retries

/// What to do after a failed call to an outside service.
#[derive(Clone, Copy, Debug, PartialEq, Eq, Structural)]
pub enum RetryDecision {
    /// Call again after this many seconds.
    RetryAfter(u64),
    /// Log the item and skip it.
    GiveUp,
}

/// The decision after failed attempt number `attempt` (counting from 0): retry
/// while attempts remain, waiting `base_delay` times the number of attempts made.
pub open spec fn retry_decision(attempt: u32, max_attempts: u32, base_delay: u64) -> RetryDecision {
    if attempt + 1 < max_attempts {
        RetryDecision::RetryAfter(
            if base_delay * (attempt + 1) <= u64::MAX {
                (base_delay * (attempt + 1)) as u64
            } else {
                u64::MAX
            },
        )
    } else {
        RetryDecision::GiveUp
    }
}

/// Decides whether to call a service again after a failure.
pub fn after_failure(attempt: u32, max_attempts: u32, base_delay: u64) -> (r: RetryDecision)
    ensures
        r == retry_decision(attempt, max_attempts, base_delay),
{
    if (attempt as u64) + 1 < max_attempts as u64 {
        assert(base_delay as u128 * (attempt as u128 + 1) <= 0xffff_ffff_ffff_ffff * 0x1_0000_0000)
            by (nonlinear_arith)
            requires
                base_delay <= 0xffff_ffff_ffff_ffffu64,
                attempt <= 0xffff_ffffu32,
        ;
        let d: u128 = base_delay as u128 * (attempt as u128 + 1);
        RetryDecision::RetryAfter(
            if d <= u64::MAX as u128 {
                d as u64
            } else {
                u64::MAX
            },
        )
    } else {
        RetryDecision::GiveUp
    }
}

// ---------------------------------------------------------------- the lease

/// The lease a run holds while it executes.
#[derive(Clone, Copy, Debug, PartialEq, Eq, Structural)]
pub struct RunLease {
    pub holder: Option<u64>,
    pub expires_at: u64,
}

/// Whether a run may take the lease at `now`: nobody holds it, or it ran out.
pub open spec fn lease_free(l: RunLease, now: u64) -> bool {
    l.holder is None || now >= l.expires_at
}

/// The lease after run `run` tries to take it at `now` for `ttl` seconds.
pub open spec fn lease_after_acquire(l: RunLease, run: u64, now: u64, ttl: u64) -> RunLease {
    if lease_free(l, now) {
        RunLease {
            holder: Some(run),
            expires_at: if now + ttl <= u64::MAX {
                (now + ttl) as u64
            } else {
                u64::MAX
            },
        }
    } else {
        l
    }
}

/// Tries to take the lease for a run; returns whether it was taken. A run that
/// does not get it must be skipped.
pub fn try_acquire(l: &mut RunLease, run: u64, now: u64, ttl: u64) -> (taken: bool)
    ensures
        taken == lease_free(*old(l), now),
        *final(l) == lease_after_acquire(*old(l), run, now, ttl),
{
    let free = match l.holder {
        None => true,
        Some(_) => now >= l.expires_at,
    };
    if free {
        l.holder = Some(run);
        l.expires_at = now.saturating_add(ttl);
    }
    free
}

/// Gives the lease back, if the run holds it.
pub fn release(l: &mut RunLease, run: u64)
    ensures
        old(l).holder == Some(run) ==> final(l).holder is None,
        old(l).holder != Some(run) ==> *final(l) == *old(l),
        final(l).expires_at == old(l).expires_at,
{
    if l.holder == Some(run) {
        l.holder = None;
    }
}

/// Runs do not overlap: once a run took the lease, no other run takes it
/// before the lease runs out, unless the holder released it.
pub proof fn lemma_lease_exclusive(l: RunLease, a: u64, b: u64, t1: u64, t2: u64, ttl: u64)
    requires
        lease_free(l, t1),
        t1 <= t2,
        t2 < t1 + ttl,
        t1 + ttl <= u64::MAX,
    ensures
        !lease_free(lease_after_acquire(l, a, t1, ttl), t2),
        lease_after_acquire(lease_after_acquire(l, a, t1, ttl), b, t2, ttl) == lease_after_acquire(
            l,
            a,
            t1,
            ttl,
        ),
{
}

// ---------------------------------------------------------------- tokens

/// What [`rand_token`] gives when the pool holds no token.
pub const NO_TOKEN: &'static str = "no token available";

/// The tokens of a comma-separated pool, trimmed, the empty ones dropped.
pub open spec fn pool_tokens(pool: Seq<char>) -> Seq<Seq<char>> {
    tokens_of(split_on(trim(pool), ','))
}

/// The pieces trimmed, the empty ones dropped.
pub open spec fn tokens_of(pieces: Seq<Seq<char>>) -> Seq<Seq<char>>
    decreases pieces.len(),
{
    if pieces.len() == 0 {
        Seq::empty()
    } else {
        let before = tokens_of(pieces.drop_last());
        let t = trim(pieces.last());
        if t.len() > 0 {
            before.push(t)
        } else {
            before
        }
    }
}

/// Relies on rand's `thread_rng` and `Rng::gen_range`: a value of the range
/// `0..n`, which must not be empty (it panics on an empty range).
#[verifier::external_body]
fn random_below(n: usize) -> (r: usize)
    requires
        n > 0,
    ensures
        r < n,
{
    rand::Rng::gen_range(&mut rand::thread_rng(), 0..n)
}

/// The tokens of a comma-separated pool.
pub fn pool_token_list(pool: &str) -> (r: Vec<String>)
    ensures
        texts(r@) == pool_tokens(pool@),
{
    let t = trim_chars(&chars_of(pool));
    let pieces = split_chars(&t, ',');
    let ghost ps = split_on(t@, ',');
    let mut out: Vec<String> = Vec::new();
    let mut i: usize = 0;
    proof {
        assert(ps.take(0) =~= Seq::<Seq<char>>::empty());
        assert(texts(out@) =~= Seq::<Seq<char>>::empty());
    }
    while i < pieces.len()
        invariant
            i <= pieces.len() == ps.len(),
            ps == split_on(t@, ','),
            t@ == trim(pool@),
            forall|k: int| 0 <= k < pieces@.len() ==> #[trigger] pieces@[k]@ == ps[k],
            texts(out@) == tokens_of(ps.take(i as int)),
        decreases pieces.len() - i,
    {
        proof {
            assert(ps.take(i as int + 1).drop_last() =~= ps.take(i as int));
            assert(ps.take(i as int + 1).last() == ps[i as int]);
        }
        let piece = trim_chars(&pieces[i]);
        if piece.len() > 0 {
            let ghost before = out@;
            out.push(string_of(&piece));
            proof {
                assert(texts(out@) =~= texts(before).push(piece@));
            }
        }
        i = i + 1;
    }
    proof {
        assert(ps.take(ps.len() as int) =~= ps);
    }
    out
}

/// One token of the pool, picked at random; [`NO_TOKEN`] when it holds none.
pub fn rand_token(pool: &str) -> (r: String)
    ensures
        pool_tokens(pool@).len() == 0 ==> r@ == NO_TOKEN@,
        pool_tokens(pool@).len() > 0 ==> pool_tokens(pool@).contains(r@),
{
    let tokens = pool_token_list(pool);
    if tokens.len() == 0 {
        return NO_TOKEN.to_owned();
    }
    let i = random_below(tokens.len());
    proof {
        assert(texts(tokens@)[i as int] == tokens@[i as int]@);
    }
    tokens[i].clone()
}

} // verus!
