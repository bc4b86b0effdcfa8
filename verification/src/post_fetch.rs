//! Gathering a user's posts over several listing requests, back to a point in time: each
//! batch that comes back decides whether to ask for the next one.
use vstd::prelude::*;
use crate::model::Post;
use crate::text::{str_opt, string_opt};
use crate::user_posts::{listing_path, listing_path_of};

verus! {

/// The most listing requests one gathering makes.
pub const MAX_REQUESTS: usize = 25;

/// The number of posts asked for in each request, Reddit's largest.
pub const BATCH_SIZE: u64 = 100;

/// A timestamp in seconds, given in seconds or in milliseconds: values above 9999999999 are
/// taken as milliseconds.
pub open spec fn seconds_of(until: u64) -> u64 {
    if until > 9999999999 {
        (until / 1000) as u64
    } else {
        until
    }
}

/// A timestamp above 9999999999 is read as milliseconds, and any other as seconds.
pub proof fn lemma_until_read_by_size(until: u64)
    ensures
        until > 9999999999 ==> seconds_of(until) == until / 1000,
        until <= 9999999999 ==> seconds_of(until) == until,
{
}

/// A time given in milliseconds names the same second as when given in seconds: every
/// millisecond of a second after the first 10000000 seconds gives that second, as does the
/// second itself.
pub proof fn lemma_milliseconds_give_their_second(secs: u64, ms: u64)
    requires
        10000000 <= secs,
        secs * 1000 + ms <= u64::MAX,
        ms < 1000,
    ensures
        seconds_of((secs * 1000 + ms) as u64) == secs,
        secs <= 9999999999 ==> seconds_of(secs) == secs,
{
    assert(secs * 1000 >= 10000000000) by (nonlinear_arith)
        requires 10000000 <= secs;
    assert((secs * 1000 + ms) / 1000 == secs) by (nonlinear_arith)
        requires ms < 1000, 0 <= ms;
}

/// The timestamp in seconds.
pub fn until_seconds(until: u64) -> (r: u64)
    ensures
        r == seconds_of(until),
        until > 9999999999 ==> r == until / 1000,
        until <= 9999999999 ==> r == until,
{
    if until > 9999999999 {
        until / 1000
    } else {
        until
    }
}

/// Whether a request must be served by gathering several batches: a time bound is given, or
/// the limit is above one batch, or 0 (no limit).
pub fn wants_batched_fetch(until: Option<u64>, limit: usize) -> (r: bool)
    ensures
        r == (until is Some || limit > 100 || limit == 0),
{
    until.is_some() || limit > 100 || limit == 0
}

/// The state of a gathering.
pub struct PostFetch {
    pub user: String,
    pub listing: String,
    pub sort: Option<String>,
    /// The most posts wanted; 0 for no limit.
    pub limit: usize,
    /// Only posts created at or after this time (seconds) are kept; 0 keeps all.
    pub until_sec: u64,
    /// The posts kept so far, in the order they came.
    pub posts: Vec<Post>,
    /// Reddit's cursor after the posts seen so far: the next request starts after it. None
    /// once Reddit has no more posts, or none that are recent enough.
    pub current_after: Option<String>,
    /// The requests made so far.
    pub requests: usize,
    /// Whether the gathering has stopped.
    pub done: bool,
}

/// The posts of a batch that are kept: those created at or after `until_sec`.
pub open spec fn kept_posts(batch: Seq<Post>, until_sec: u64) -> Seq<Post> {
    batch.filter(|p: Post| p.created_ts >= until_sec)
}

/// Whether a batch reaches back before the time bound (there is one, and a post is older).
pub open spec fn reaches_before(batch: Seq<Post>, until_sec: u64) -> bool {
    until_sec > 0 && exists|i: int| 0 <= i < batch.len() && #[trigger] batch[i].created_ts < until_sec
}

/// Without a time bound (0) every post of a batch is kept.
pub proof fn lemma_no_bound_keeps_every_post(batch: Seq<Post>)
    ensures
        kept_posts(batch, 0) == batch,
    decreases batch.len(),
{
    reveal(Seq::filter);
    if batch.len() > 0 {
        lemma_no_bound_keeps_every_post(batch.drop_last());
        assert(batch.drop_last().push(batch.last()) =~= batch);
    }
}

impl PostFetch {
    /// What holds of every state of a gathering.
    pub open spec fn wf(&self) -> bool {
        &&& self.requests <= MAX_REQUESTS
        &&& forall|i: int| 0 <= i < self.posts@.len() ==> #[trigger] self.posts@[i].created_ts >= self.until_sec
    }

    /// A gathering of a user's listing that has not asked for anything yet; `until` is in
    /// seconds or milliseconds, 0 for no time bound.
    pub fn new(user: String, listing: String, limit: usize, after: Option<String>, sort: Option<String>, until: u64) -> (s: Self)
        ensures
            s.wf(),
            s.user == user,
            s.listing == listing,
            s.sort == sort,
            s.limit == limit,
            s.until_sec == seconds_of(until),
            s.posts@.len() == 0,
            s.current_after == after,
            s.requests == 0,
            !s.done,
    {
        PostFetch {
            user,
            listing,
            sort,
            limit,
            until_sec: until_seconds(until),
            posts: Vec::new(),
            current_after: after,
            requests: 0,
            done: false,
        }
    }

    /// The path of the next request, if another one is to be made: not when the gathering
    /// has stopped or has made its 25 requests.
    pub fn next_path(&self) -> (r: Option<String>)
        ensures
            r is Some <==> (!self.done && self.requests < MAX_REQUESTS),
            r matches Some(p) ==> p@ == listing_path_of(
                self.user@,
                self.listing@,
                string_opt(self.current_after),
                Some(BATCH_SIZE as nat),
                string_opt(self.sort),
            ),
    {
        if self.done || self.requests >= MAX_REQUESTS {
            return None;
        }
        let after: Option<&str> = match &self.current_after {
            Some(a) => Some(a.as_str()),
            None => None,
        };
        let sort: Option<&str> = match &self.sort {
            Some(s) => Some(s.as_str()),
            None => None,
        };
        assert(str_opt(after) == string_opt(self.current_after));
        assert(str_opt(sort) == string_opt(self.sort));
        Some(listing_path(self.user.as_str(), self.listing.as_str(), after, Some(BATCH_SIZE), sort))
    }

    /// Takes in the answer to the last request: the batch of posts and Reddit's cursor. An
    /// empty batch stops the gathering, with nothing more to fetch. Otherwise the posts created
    /// at or after the bound are kept; Reddit's cursor is kept unless it is empty or the batch
    /// reaches back before the bound (older posts are not wanted); and the gathering stops when
    /// the limit is reached or there is no cursor left, else it goes on after the cursor.
    pub fn record_batch(&mut self, batch: Vec<Post>, reddit_after: String)
        requires
            old(self).wf(),
            !old(self).done,
            old(self).requests < MAX_REQUESTS,
        ensures
            final(self).wf(),
            final(self).requests == old(self).requests + 1,
            final(self).user == old(self).user,
            final(self).listing == old(self).listing,
            final(self).sort == old(self).sort,
            final(self).limit == old(self).limit,
            final(self).until_sec == old(self).until_sec,
            batch@.len() == 0 ==> {
                &&& final(self).done
                &&& final(self).posts@ == old(self).posts@
                &&& final(self).current_after is None
            },
            batch@.len() > 0 ==> {
                &&& final(self).posts@ == old(self).posts@ + kept_posts(batch@, old(self).until_sec)
                &&& final(self).current_after == if reaches_before(batch@, old(self).until_sec)
                    || reddit_after@.len() == 0 {
                    None
                } else {
                    Some(reddit_after)
                }
                &&& final(self).done == ((old(self).limit != 0 && final(self).posts@.len() >= old(self).limit)
                    || final(self).current_after is None)
            },
    {
        self.requests = self.requests + 1;
        if batch.len() == 0 {
            self.done = true;
            self.current_after = None;
            return;
        }
        let ghost bs = batch@;
        let mut posts: Vec<Post> = Vec::new();
        std::mem::swap(&mut posts, &mut self.posts);
        let ghost start = posts@;
        let until_sec = self.until_sec;
        let mut older_seen = false;
        assert(bs.take(0) =~= Seq::<Post>::empty());
        proof {
            reveal(Seq::filter);
        }
        for p in it: batch.into_iter()
            invariant
                it.seq() == bs,
                posts@ == start + kept_posts(bs.take(it.index() as int), until_sec),
                forall|i: int| 0 <= i < start.len() ==> #[trigger] start[i].created_ts >= until_sec,
                older_seen == exists|i: int| 0 <= i < it.index() && #[trigger] bs[i].created_ts < until_sec,
        {
            let ghost k = it.index();
            assert(p == bs[k]);
            proof {
                reveal(Seq::filter);
                assert(bs.take(k + 1).drop_last() =~= bs.take(k));
            }
            if p.created_ts < until_sec {
                older_seen = true;
            } else {
                posts.push(p);
                assert(start + kept_posts(bs.take(k), until_sec).push(p) =~= (start + kept_posts(bs.take(k), until_sec)).push(p));
            }
        }
        assert(bs.take(bs.len() as int) =~= bs);
        self.posts = posts;
        proof {
            let kept = kept_posts(bs, until_sec);
            assert forall|i: int| 0 <= i < self.posts@.len() implies #[trigger] self.posts@[i].created_ts >= until_sec by {
                if i >= start.len() {
                    assert(self.posts@[i] == kept[i - start.len()]);
                    bs.lemma_filter_pred(|p: Post| p.created_ts >= until_sec, i - start.len());
                }
            }
        }
        if (until_sec > 0 && older_seen) || reddit_after.as_str().is_empty() {
            self.current_after = None;
        } else {
            self.current_after = Some(reddit_after);
        }
        self.done = (self.limit != 0 && self.posts.len() >= self.limit) || self.current_after.is_none();
    }

    /// The posts gathered, cut to the limit when there is one, and whether more remain: some
    /// are returned, and the limit cut some off or Reddit's cursor is left.
    pub fn finish(self) -> (r: (Vec<Post>, bool))
        requires
            self.wf(),
        ensures
            r.0@ == if self.limit != 0 && self.posts@.len() > self.limit {
                self.posts@.take(self.limit as int)
            } else {
                self.posts@
            },
            r.1 == (r.0@.len() > 0 && ((self.limit != 0 && self.posts@.len() > self.limit) || (
            match self.current_after {
                Some(a) => a@.len() > 0,
                None => false,
            }))),
            self.limit != 0 ==> r.0@.len() <= self.limit,
            forall|i: int| 0 <= i < r.0@.len() ==> #[trigger] r.0@[i].created_ts >= self.until_sec,
    {
        let mut posts = self.posts;
        let cut = self.limit != 0 && posts.len() > self.limit;
        if cut {
            posts.truncate(self.limit);
        }
        let more = posts.len() > 0 && (cut || match &self.current_after {
            Some(a) => !a.as_str().is_empty(),
            None => false,
        });
        (posts, more)
    }
}

} // verus!
