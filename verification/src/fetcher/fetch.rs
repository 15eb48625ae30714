//! Fetching a feed over HTTP: the decisions between requests.
//!
//! The caller performs each request and each wait; [`FeedFetch`] decides
//! what comes next from the response. Rate-limited answers (HTTP 429) are
//! retried up to five requests in all, waiting as the server asks (or
//! 5, 10, 15, 20, 25 seconds); when every request was rate limited, a feed
//! fetched earlier from the same URL is used.
use vstd::prelude::*;
use vstd::string::*;
use crate::error::AppError;
use crate::fetcher::rss::{parse_feed, feed_of, Feed, FeedView};
use crate::text::{chars_of, parse_u64, parse_u64_spec, starts_with, starts_with_exec, str_eq, string_of_range};

verus! {

/// The most requests made for one fetch.
pub const MAX_FETCH_ATTEMPTS: u64 = 5;

/// Reddit rate-limits plain-HTTP requests, so its `http://` URLs are
/// fetched over `https://`; other URLs are kept.
pub open spec fn feed_request_url(url: Seq<char>) -> Seq<char> {
    if starts_with(url, "http://www.reddit.com/"@) || starts_with(url, "http://reddit.com/"@) {
        "https://"@ + url.skip(7)
    } else {
        url
    }
}

/// The URL a feed is requested from.
pub fn normalize_feed_url(url: &str) -> (r: String)
    ensures
        r@ == feed_request_url(url@),
{
    let v = chars_of(url);
    let a = chars_of("http://www.reddit.com/");
    let b = chars_of("http://reddit.com/");
    if starts_with_exec(v.as_slice(), a.as_slice()) || starts_with_exec(v.as_slice(), b.as_slice()) {
        proof {
            reveal_strlit("http://www.reddit.com/");
            reveal_strlit("http://reddit.com/");
        }
        let mut r = String::from_str("https://");
        let rest = string_of_range(v.as_slice(), 7, v.len());
        r.append(rest.as_str());
        r
    } else {
        String::from_str(url)
    }
}

/// Seconds to wait after a rate-limited answer: the `Retry-After` header,
/// else the `x-ratelimit-reset` header (each when it is a whole number),
/// else a backoff of `5 * (attempt + 1)` seconds.
pub open spec fn rate_limit_wait(retry_after: Option<Seq<char>>, reset: Option<Seq<char>>, attempt: nat) -> nat {
    let a = match retry_after { Some(h) => parse_u64_spec(h), None => None };
    let b = match reset { Some(h) => parse_u64_spec(h), None => None };
    match a {
        Some(x) => x as nat,
        None => match b {
            Some(y) => y as nat,
            None => 5 * (attempt + 1),
        },
    }
}

/// Exec [`rate_limit_wait`].
pub fn rate_limit_wait_secs(retry_after: Option<&str>, reset: Option<&str>, attempt: u64) -> (r: u64)
    requires
        5 * (attempt + 1) <= u64::MAX,
    ensures
        r as nat == rate_limit_wait(
            match retry_after { Some(h) => Some(h@), None => None },
            match reset { Some(h) => Some(h@), None => None },
            attempt as nat,
        ),
{
    let a = match retry_after { Some(h) => parse_u64(h), None => None };
    match a {
        Some(x) => x,
        None => {
            let b = match reset { Some(h) => parse_u64(h), None => None };
            match b {
                Some(y) => y,
                None => 5 * (attempt + 1),
            }
        },
    }
}

/// Feeds fetched earlier, by URL.
pub struct FeedCache {
    entries: Vec<(String, Feed)>,
}

/// The cached feed of `url` among `entries` (the first entry for it).
pub open spec fn cache_lookup(entries: Seq<(Seq<char>, FeedView)>, url: Seq<char>) -> Option<FeedView>
    decreases entries.len(),
{
    if entries.len() == 0 {
        None
    } else if entries[0].0 == url {
        Some(entries[0].1)
    } else {
        cache_lookup(entries.drop_first(), url)
    }
}

impl FeedCache {
    /// The cached entries, URL and feed.
    pub closed spec fn entries(&self) -> Seq<(Seq<char>, FeedView)> {
        self.entries@.map_values(|e: (String, Feed)| (e.0@, e.1@))
    }

    /// The feed cached for `url`.
    pub open spec fn lookup(&self, url: Seq<char>) -> Option<FeedView> {
        cache_lookup(self.entries(), url)
    }

    /// An empty cache.
    pub fn new() -> (r: FeedCache)
        ensures
            forall|u: Seq<char>| r.lookup(u) is None,
    {
        let r = FeedCache { entries: Vec::new() };
        assert(r.entries() =~= Seq::<(Seq<char>, FeedView)>::empty());
        r
    }

    /// Index of the first entry for `url`.
    fn position(&self, url: &str) -> (r: Option<usize>)
        ensures
            r is None ==> self.lookup(url@) is None,
            r matches Some(i) ==> i < self.entries@.len() && self.entries()[i as int].0 == url@
                && self.lookup(url@) == Some(self.entries()[i as int].1)
                && forall|j: int| 0 <= j < i ==> self.entries()[j].0 != url@,
    {
        let mut i: usize = 0;
        assert(self.entries().skip(0) =~= self.entries());
        while i < self.entries.len()
            invariant
                i <= self.entries@.len(),
                forall|j: int| 0 <= j < i ==> self.entries()[j].0 != url@,
                cache_lookup(self.entries(), url@) == cache_lookup(self.entries().skip(i as int), url@),
            decreases self.entries@.len() - i,
        {
            assert(self.entries()[i as int].0 == self.entries@[i as int].0@);
            if str_eq(self.entries[i].0.as_str(), url) {
                return Some(i);
            }
            assert(self.entries().skip(i as int).drop_first() =~= self.entries().skip(i + 1));
            i += 1;
        }
        None
    }

    /// Remembers `feed` as the latest feed of `url`.
    pub fn insert(&mut self, url: &str, feed: Feed)
        ensures
            final(self).lookup(url@) == Some(feed@),
            forall|u: Seq<char>| u != url@ ==> final(self).lookup(u) == old(self).lookup(u),
    {
        let ghost old_entries = self.entries();
        match self.position(url) {
            Some(i) => {
                self.entries.set(i, (String::from_str(url), feed));
                proof {
                    assert(self.entries() =~= old_entries.update(i as int, (url@, feed@)));
                    lemma_lookup_update(old_entries, i as int, url@, feed@);
                }
            },
            None => {
                self.entries.push((String::from_str(url), feed));
                proof {
                    assert(self.entries() =~= old_entries.push((url@, feed@)));
                    lemma_lookup_push(old_entries, url@, feed@);
                }
            },
        }
    }

    /// The feed cached for `url`, as a copy.
    pub fn get(&self, url: &str) -> (r: Option<Feed>)
        ensures
            match self.lookup(url@) {
                Some(f) => r matches Some(g) && g@ == f,
                None => r is None,
            },
    {
        match self.position(url) {
            Some(i) => Some(self.entries[i].1.duplicate()),
            None => None,
        }
    }
}

proof fn lemma_lookup_update(
    e: Seq<(Seq<char>, FeedView)>,
    i: int,
    url: Seq<char>,
    f: FeedView,
)
    requires
        0 <= i < e.len(),
        e[i].0 == url,
        forall|j: int| 0 <= j < i ==> e[j].0 != url,
    ensures
        cache_lookup(e.update(i, (url, f)), url) == Some(f),
        forall|u: Seq<char>| u != url ==> cache_lookup(e.update(i, (url, f)), u) == cache_lookup(e, u),
    decreases e.len(),
{
    let e2 = e.update(i, (url, f));
    if i > 0 {
        lemma_lookup_update(e.drop_first(), i - 1, url, f);
        assert(e2.drop_first() =~= e.drop_first().update(i - 1, (url, f)));
        assert forall|u: Seq<char>| u != url implies cache_lookup(e2, u) == cache_lookup(e, u) by {
            assert(e2[0] == e[0]);
            assert(cache_lookup(e.drop_first().update(i - 1, (url, f)), u) == cache_lookup(e.drop_first(), u));
            assert(cache_lookup(e2.drop_first(), u) == cache_lookup(e.drop_first(), u));
        }
    } else {
        assert(e2.drop_first() =~= e.drop_first());
        assert forall|u: Seq<char>| u != url implies cache_lookup(e2, u) == cache_lookup(e, u) by {
            assert(e2[0].0 == url);
            assert(e[0].0 == url);
        }
    }
}

proof fn lemma_lookup_push(e: Seq<(Seq<char>, FeedView)>, url: Seq<char>, f: FeedView)
    requires
        cache_lookup(e, url) is None,
    ensures
        cache_lookup(e.push((url, f)), url) == Some(f),
        forall|u: Seq<char>| u != url ==> cache_lookup(e.push((url, f)), u) == cache_lookup(e, u),
    decreases e.len(),
{
    let e2 = e.push((url, f));
    if e.len() > 0 {
        lemma_lookup_push(e.drop_first(), url, f);
        assert(e2.drop_first() =~= e.drop_first().push((url, f)));
        assert forall|u: Seq<char>| u != url implies cache_lookup(e2, u) == cache_lookup(e, u) by {
            assert(e2[0] == e[0]);
            assert(cache_lookup(e.drop_first().push((url, f)), u) == cache_lookup(e.drop_first(), u));
            assert(cache_lookup(e2.drop_first(), u) == cache_lookup(e.drop_first(), u));
        }
    } else {
        assert(e2.drop_first() =~= e);
        assert forall|u: Seq<char>| u != url implies cache_lookup(e2, u) == cache_lookup(e, u) by {
            assert(e2[0].0 == url);
        }
    }
}

/// What follows the wait after a rate-limited answer.
pub enum WaitOutcome {
    /// Send the request again.
    Resend,
    /// Give up and use this cached feed.
    Cached(FeedView),
    /// Give up with this error message.
    Failed(Seq<char>),
}

/// After `attempts` rate-limited answers: another request while fewer than
/// five requests were made; then the feed cached for the URL, or the 429 error.
pub open spec fn after_wait_outcome(attempts: nat, url: Seq<char>, cached: Option<FeedView>) -> WaitOutcome {
    if attempts < MAX_FETCH_ATTEMPTS {
        WaitOutcome::Resend
    } else {
        match cached {
            Some(f) => WaitOutcome::Cached(f),
            None => WaitOutcome::Failed("HTTP 429 Too Many Requests for "@ + url),
        }
    }
}

/// A step carries out an outcome.
pub open spec fn carries_out(r: FetchStep, o: WaitOutcome) -> bool {
    match o {
        WaitOutcome::Resend => r is Send,
        WaitOutcome::Cached(f) => r matches FetchStep::Finished(Ok(g)) && g@ == f,
        WaitOutcome::Failed(m) => r matches FetchStep::Finished(Err(AppError::RssParse(e))) && e@ == m,
    }
}

/// Answered with 429 every time, a fetch makes five requests: each of the
/// first four rate-limited answers is followed by a wait and another
/// request, the fifth by the cached feed or the 429 error (each answer
/// counts one attempt, see [`FeedFetch::on_response`]).
pub proof fn rate_limited_fetch_makes_five_requests(url: Seq<char>, cached: Option<FeedView>)
    ensures
        forall|k: nat| 1 <= k < MAX_FETCH_ATTEMPTS ==> #[trigger] after_wait_outcome(k, url, cached) == WaitOutcome::Resend,
        after_wait_outcome(MAX_FETCH_ATTEMPTS as nat, url, cached) == match cached {
            Some(f) => WaitOutcome::Cached(f),
            None => WaitOutcome::Failed("HTTP 429 Too Many Requests for "@ + url),
        },
{
}

/// What the caller does next.
pub enum FetchStep {
    /// Send the (next) request.
    Send,
    /// Wait this many seconds, then ask [`FeedFetch::after_wait`].
    Wait(u64),
    /// The fetch is over.
    Finished(Result<Feed, AppError>),
}

/// The state of one fetch.
pub struct FeedFetch {
    /// The URL requested.
    pub url: String,
    /// Requests answered with 429 so far.
    pub attempts: u64,
}

impl FeedFetch {
    /// The state is meaningful: no more rate-limited answers than requests allowed.
    pub open spec fn wf(&self) -> bool {
        self.attempts <= MAX_FETCH_ATTEMPTS
    }

    /// A fetch of `url` (rewritten by [`normalize_feed_url`]); the first step is to send.
    pub fn new(url: &str) -> (r: FeedFetch)
        ensures
            r.url@ == feed_request_url(url@),
            r.attempts == 0,
            r.wf(),
    {
        FeedFetch { url: normalize_feed_url(url), attempts: 0 }
    }

    /// Decides on a response to the request just sent. A 429 answer asks to
    /// wait; any other failure status ends the fetch with an error naming
    /// the status; a success parses the body, and a parsed feed is cached
    /// under the URL before it is returned.
    pub fn on_response(
        &mut self,
        cache: &mut FeedCache,
        status: u16,
        status_text: &str,
        retry_after: Option<&str>,
        ratelimit_reset: Option<&str>,
        body: &str,
    ) -> (r: FetchStep)
        requires
            old(self).attempts < MAX_FETCH_ATTEMPTS,
        ensures
            final(self).url == old(self).url,
            final(self).wf(),
            status == 429 ==> {
                &&& final(self).attempts == old(self).attempts + 1
                &&& r matches FetchStep::Wait(w) && w as nat == rate_limit_wait(
                    match retry_after { Some(h) => Some(h@), None => None },
                    match ratelimit_reset { Some(h) => Some(h@), None => None },
                    old(self).attempts as nat,
                )
                &&& *final(cache) == *old(cache)
            },
            status != 429 && !(200 <= status <= 299) ==> {
                &&& r matches FetchStep::Finished(Err(AppError::RssParse(m)))
                &&& m@ == "HTTP "@ + status_text@ + " for "@ + old(self).url@
                &&& *final(cache) == *old(cache)
            },
            200 <= status <= 299 ==> match feed_of(body@) {
                Ok(f) => {
                    &&& r matches FetchStep::Finished(Ok(g)) && g@ == f
                    &&& final(cache).lookup(old(self).url@) == Some(f)
                    &&& forall|u: Seq<char>| u != old(self).url@ ==> final(cache).lookup(u) == old(cache).lookup(u)
                },
                Err(m) => {
                    &&& r matches FetchStep::Finished(Err(AppError::RssParse(e))) && e@ == m
                    &&& *final(cache) == *old(cache)
                },
            },
    {
        if status == 429 {
            let w = rate_limit_wait_secs(retry_after, ratelimit_reset, self.attempts);
            self.attempts = self.attempts + 1;
            return FetchStep::Wait(w);
        }
        if !(200 <= status && status <= 299) {
            let mut m = String::from_str("HTTP ");
            m.append(status_text);
            m.append(" for ");
            m.append(self.url.as_str());
            return FetchStep::Finished(Err(AppError::RssParse(m)));
        }
        match parse_feed(body) {
            Ok(feed) => {
                cache.insert(self.url.as_str(), feed.duplicate());
                FetchStep::Finished(Ok(feed))
            },
            Err(e) => FetchStep::Finished(Err(e)),
        }
    }

    /// Decides after a wait: send again while fewer than five requests were
    /// made; otherwise use the feed cached for the URL, or fail with the
    /// rate-limit error.
    pub fn after_wait(&self, cache: &FeedCache) -> (r: FetchStep)
        requires
            self.wf(),
            self.attempts > 0,
        ensures
            carries_out(r, after_wait_outcome(self.attempts as nat, self.url@, cache.lookup(self.url@))),
    {
        if self.attempts < MAX_FETCH_ATTEMPTS {
            return FetchStep::Send;
        }
        match cache.get(self.url.as_str()) {
            Some(f) => FetchStep::Finished(Ok(f)),
            None => {
                let mut m = String::from_str("HTTP 429 Too Many Requests for ");
                m.append(self.url.as_str());
                FetchStep::Finished(Err(AppError::RssParse(m)))
            },
        }
    }
}

} // verus!
